pub mod accounts;
pub mod applications;
pub mod claims;
pub mod companies;
pub mod dashboard;
pub mod gateway;
pub mod jobs;
pub mod listing;
pub mod policy;
pub mod query;
pub mod strutil;
pub mod token;
