//! A creator platform: channels with subscribers, registered content with
//! copyright disputes and royalties, viewer statistics, and scheduled jobs.
//! The platform's state is a value of [`CreatorPlatformContract`]; every
//! operation is proved to act on its mathematical model
//! [`model::PlatformState`] as the model's transition of the same name says.

pub mod types;
pub mod model;
pub mod platform;
pub mod laws;
pub mod snapshot;
pub mod history;
pub mod behaviour;

pub use types::{
    Address, AddressKind, Channel, ChannelStatus, ChannelView, Content, ContentView, ContractError,
    CopyrightStatus, Job, JobStatus, JobType, JobView, LicenseType, RoyaltyTransfer, Text,
    ViewerStats,
};
pub use platform::CreatorPlatformContract;
pub use snapshot::PlatformSnapshot;
