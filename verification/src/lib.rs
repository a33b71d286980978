//! Multiple seasonal-trend decomposition of a time series.
//!
//! The crate decomposes an equally spaced series into an additive trend
//! component, one seasonal component per requested periodicity, and a
//! residual component, by running a single-season STL decomposition
//! repeatedly in increasing order of period length.
//!
//! The single-season decomposition itself is an external collaborator:
//! callers provide it by implementing [`StlSample`] for their sample type.
//! Everything around it — period validation and normalization, seasonal
//! window selection, the outer/inner refitting loop, and the final
//! residual extraction — is specified and verified here.

pub mod error;
pub mod mstl;
pub mod params;
pub mod period_map;
pub mod periods;
pub mod primitive;

pub use error::Error;
pub use mstl::{fit_model, EngineState, MSTL, MSTLDecomposition};
pub use params::StlParams;
pub use period_map::PeriodMap;
pub use primitive::{StlFit, StlSample};
