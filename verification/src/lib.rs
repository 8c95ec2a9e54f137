//! Decisions of a command-line tool that scales a Kubernetes Deployment to a
//! fixed replica count or triggers a rolling restart of it.
//!
//! The library holds everything that computes: the merge-patch bodies that
//! are sent to the API server, the options they are sent with, the handling of
//! an extra PEM bundle of certificate authorities, and the step function that
//! drives one run of the tool from event to action.
pub mod patch;
pub mod pem_bundle;
pub mod clock;
pub mod run;
pub mod message;
