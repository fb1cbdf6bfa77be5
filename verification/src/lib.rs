//! The decisions of a container's init process.
//!
//! The init process of a container prepares its own environment, waits for
//! the request to start the application, starts it and reports how it ended.
//! This crate holds what that process decides: which operations it asks the
//! operating system for, in which order, and how it goes on from each answer.
//! The program around it performs the operations.
pub mod action;
pub mod application;
pub mod capability;
pub mod child;
pub mod confinement;
pub mod course;
pub mod init;
pub mod limits;
pub mod message;
pub mod mount;
pub mod operations;
pub mod path;
pub mod preparation;
pub mod run;
pub mod sequence;
pub mod service;
pub mod text;
pub mod views;
