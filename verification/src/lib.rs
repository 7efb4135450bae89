//! A moderation report subsystem for posts: a store of reports filed by
//! users, the viewer-relative report views assembled from it, and the
//! permission-scoped listing, counting and resolution operations on them.
//!
//! Every executable function carries a contract over the mathematical model
//! of the store in [`model`], and the laws that relate the operations to one
//! another are proved in [`laws`].

pub mod ids;
pub mod rows;
pub mod error;
pub mod pagination;
pub mod model;
pub mod store;
pub mod view;
pub mod query;
pub mod laws;

pub use crate::error::{ReportError, StoreFault};
pub use crate::ids::{CommunityId, PersonId, PostId, PostReportId};
pub use crate::pagination::{limit_and_offset, FETCH_LIMIT_DEFAULT, FETCH_LIMIT_MAX};
pub use crate::query::PostReportQuery;
pub use crate::rows::{
    Community,
    CommunityActions,
    CommunityFollowerState,
    LocalUser,
    LocalUserView,
    Person,
    PersonActions,
    Post,
    PostActions,
    PostAggregates,
    PostReport,
    PostReportForm,
    SubscribedType,
};
pub use crate::store::ReportStore;
pub use crate::view::PostReportView;
