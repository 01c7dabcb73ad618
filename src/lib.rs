//! Certificate lifecycle management for a reverse proxy: deciding when a
//! certificate must be issued again, the decisions of an ACME order session,
//! the HTTP-01 challenge responder and the installation of new material.

pub mod certificate;
pub mod challenge;
pub mod csr;
pub mod domains;
pub mod error;
pub mod order;
pub mod poll;
pub mod scheduler;
pub mod text;

pub use certificate::{
    get_lets_encrypt_certificate, install_certificate, should_renew, Certificate,
    CertificateRecord,
};
pub use error::{Category, CertError};
