//! Verified core of a Liquid asset registry.
//!
//! The library maintains a locally trustworthy view of asset metadata and
//! icons: a whole-registry refresh protocol that reconciles downloaded data
//! with hard-coded canonical entries, and a per-identity cache protocol that
//! answers id-scoped queries from the last persisted snapshot while keeping a
//! negative cache of unresolved ids.

pub mod entries;
pub mod hard;
pub mod entry_map;
pub mod ids;
pub mod lookup;
pub mod refresh;
pub mod verify;

pub use entries::{AssetEntry, IconEntry};
pub use hard::{policy_asset_id, ElementsNetwork};
pub use ids::AssetId;
pub use lookup::{get_assets, IdentityCache};
pub use refresh::{
    refresh_assets, AssetsOrIcons, Error, RefreshAssetsParam, RegistryResult, SnapshotStore,
    VersionedValue,
};
