//! The simulation strategies of the simulator, and how the command line names them.

use vstd::prelude::*;
use crate::text::same_text;

verus! {

/// Simulation strategy selection.
#[derive(Debug, Clone, Copy, PartialEq, Eq, Structural)]
pub enum SimulationStrategy {
    /// Traditional transmission line model (default, stable)
    Tlm,
    /// Digital waveguide approach (alternative)
    Waveguide,
    /// Enhanced complex impedance calculation (alternative)
    ComplexImpedance,
}

/// The strategy a command-line name selects: `waveguide` and `complex` pick
/// their strategies, and any other name (`tlm` among them) the transmission
/// line model.
pub open spec fn strategy_named(name: Seq<char>) -> SimulationStrategy {
    if name == "waveguide"@ {
        SimulationStrategy::Waveguide
    } else if name == "complex"@ {
        SimulationStrategy::ComplexImpedance
    } else {
        SimulationStrategy::Tlm
    }
}

impl SimulationStrategy {
    /// The strategy that the value of `--strategy` selects.
    pub fn from_cli_name(name: &str) -> (r: SimulationStrategy)
        ensures
            r == strategy_named(name@),
    {
        if same_text(name, "waveguide") {
            SimulationStrategy::Waveguide
        } else if same_text(name, "complex") {
            SimulationStrategy::ComplexImpedance
        } else {
            SimulationStrategy::Tlm
        }
    }
}

} // verus!
