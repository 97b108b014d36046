//! Verified request validation, path routing, cookie and URL handling, and
//! dashboard layout operations of a full-stack authentication workspace.

pub mod text;
pub mod error;
pub mod contracts;
pub mod validation;
pub mod urls;
pub mod cookies;
pub mod paths;
pub mod board;
pub mod config;
pub mod access;
pub mod requests;
pub mod labels;
pub mod browser;
pub mod authz;
pub mod batch;
pub mod mfa;
pub mod organizations;
pub mod signin;
pub mod profile_form;
pub mod vault;
pub mod passkey_page;
pub mod workspace_settings;
pub mod sessions_page;
pub mod account_forms;
pub mod providers;
