//! The decision logic of a Windows remote-desktop agent: the helper pipe
//! protocol, the routing of displays and events, bitrate control, and the rules
//! that govern sessions, input, settings and updates.
pub mod bitrate;
pub mod capture;
pub mod catalog;
pub mod child;
pub mod clipboard;
pub mod command;
pub mod config;
pub mod controller;
pub mod credentials;
pub mod dispatch;
pub mod display_border;
pub mod display_frame;
pub mod drag_windows;
pub mod event;
pub mod failure;
pub mod helper;
pub mod helper_set;
pub mod indicator;
pub mod input;
pub mod input_block;
pub mod installation;
pub mod keep_awake;
pub mod model;
pub mod native_task;
pub mod pipe;
pub mod profile;
pub mod reuse;
pub mod secure_attention;
pub mod sender;
pub mod service;
pub mod service_link;
pub mod session_close;
pub mod signaling;
pub mod stderr;
pub mod streamer;
pub mod text;
pub mod tray;
pub mod updater;
pub mod video;
pub mod wallpaper;
pub mod wire;
