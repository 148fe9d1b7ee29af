//! Watching a ferry-booking service for free places for vehicles.
//!
//! The library holds what is decided and computed: the sailings as the
//! service reports them ([`event`], [`event_map`], [`direction`]), the
//! decoding of its answers ([`json`], [`decode`]), the wait engine of one
//! tracked sailing and its pace ([`engine`], [`schedule`], [`client`]), and
//! the registry of several tracked sailings with the feed of what their
//! engines emit ([`registry`], [`feed`], [`messages`]). Sending requests,
//! sleeping and showing are left to the program around it, which drives an
//! engine step by step.

pub mod booking;
pub mod client;
pub mod constants;
pub mod datetime;
pub mod decode;
pub mod direction;
pub mod engine;
pub mod event;
pub mod event_map;
pub mod feed;
pub mod json;
pub mod messages;
pub mod numbers;
pub mod registry;
pub mod request;
pub mod schedule;
pub mod text;
