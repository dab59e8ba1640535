//! The request handling of a small newsletter web service: which endpoint
//! a request reaches, how a subscription form is read from its
//! url-encoded body, and what each request is answered with.

pub mod form;
pub mod response;

pub mod service;
