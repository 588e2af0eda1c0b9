//! The integer and text logic of the CADSD didgeridoo toolkit, verified: the
//! prime generators and their sieve, the command-line front end, the grid
//! and mesh indexing of the field solvers, the gene layout of the optimizer,
//! the undo/redo histories and menu choices of the editors, and the OBJ
//! outline records of the exporter.

pub mod choices;
pub mod cli;
pub mod diff_tlm;
pub mod dwm;
pub mod evo;
pub mod export;
pub mod fdtd;
pub mod fingerprint;
pub mod genes;
pub mod history;
pub mod prime_conv;
pub mod sieve;
pub mod sim;
pub mod text;
