//! The ReVanced API: authentication of voters.
pub mod routing;
