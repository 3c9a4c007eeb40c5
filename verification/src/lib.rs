//! Verified models of the logic of WIE, an emulator for feature-phone
//! (WIPI and MIDP) applications: the user-interface classes the
//! applications see (forms, items, choice groups, alerts, tickers, the
//! display and its bands), the event queue between backend and
//! application, reads and writes of guest memory, and the decisions of the
//! web frontend. Each model states its behaviour in contracts that Verus
//! proves.
pub mod errors;
pub mod memory;
pub mod font;
pub mod event_queue;
pub mod choice_group;
pub mod geometry;
pub mod form;
pub mod item;
pub mod string_item;
pub mod gauge;
pub mod image_item;
pub mod command;
pub mod displayable;
pub mod ticker;
pub mod alert;
pub mod display;
pub mod media;
pub mod events;
pub mod graphics_context;
pub mod database;
pub mod choice_layout;
pub mod web;
pub mod key_repeat;
