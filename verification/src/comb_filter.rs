use vstd::prelude::*;

verus! {

/// Topology of a comb filter: a single delayed tap mixed into the input.
///
/// `FIR` (feedforward) stores the raw input in the delay line, so the
/// impulse response is finite; `IIR` (feedback) stores the computed output,
/// so energy recirculates. The topology is chosen once at construction and
/// never changed on a live filter.
#[derive(Debug, Clone, Copy)]
pub enum FilterType {
    FIR,
    IIR,
}

/// The two run-time parameters of a comb filter that a caller may set or
/// query: the tap gain and the delay time.
#[derive(Debug, Clone, Copy)]
pub enum FilterParam {
    Gain,
    Delay,
}

} // verus!
