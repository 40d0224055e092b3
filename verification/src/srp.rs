//! The SRP client: what is registered with it, the records that the
//! stack reads, and the arena that holds them.

pub mod display;
pub mod laws;
pub mod load;
pub mod resources;
pub mod store;
pub mod types;

pub use types::AbiLayout;
pub use types::SrpConf;
pub use types::SrpConfView;
pub use types::SrpHostRecord;
pub use types::SrpService;
pub use types::SrpServiceRecord;
pub use types::SrpServiceSlot;
pub use types::SrpServiceView;
pub use types::SrpState;
pub use types::SrpTxtRecord;
pub use load::OutSrpConf;
pub use load::OutSrpService;
pub use load::OutSrpSubtypeLabelsIter;
pub use load::OutSrpTxtEntriesIter;
pub use resources::OtSrpResources;
pub use resources::OtSrpState;
pub use resources::SrpArenaView;
