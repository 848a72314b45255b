//! The entities of the address directory.

pub mod address;
pub mod big_user;
pub mod code;
pub mod cpc;
pub mod id;
pub mod locality;
pub mod neighborhood;
pub mod operational_unit;
pub mod uf;

pub use address::{
    Address, AddressId, AddressIdError, StreetTypeIndicator, StreetTypeIndicatorError,
};
pub use big_user::{BigUser, BigUserId, BigUserIdError, StreetId, StreetIdError};
pub use cpc::{Cpc, CpcId, CpcIdError};
pub use locality::{
    Locality, LocalityId, LocalityIdError, LocalitySituation, LocalitySituationError, LocalityType,
    LocalityTypeError,
};
pub use neighborhood::{Neighborhood, NeighborhoodId, NeighborhoodIdError};
pub use operational_unit::{
    OperationalUnit, OperationalUnitId, OperationalUnitIdError, PostBoxIndicator,
    PostBoxIndicatorError,
};
pub use uf::{Uf, UfParseError};
