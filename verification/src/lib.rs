//! Core of a KDE Connect desktop: pairing, packets, transfers, plugins and the
//! state behind the panel applet, the SMS window and the settings window.

pub mod text;
pub mod table;
pub mod vcard;
pub mod bytes;
pub mod device;
pub mod pairing;
pub mod paths;
pub mod download;
pub mod transfer;
pub mod mpris;
pub mod phone;
pub mod monitor;
pub mod sftp;
pub mod json;
pub mod packet;
pub mod share;
pub mod encode;
pub mod portal;
pub mod sms;
pub mod run_command;
pub mod event;
pub mod plugins;
pub mod order;
pub mod conversation;
pub mod contacts;
pub mod sms_window;
pub mod sms_view;
pub mod transport;
pub mod service;
pub mod daemon;
pub mod client;
pub mod backend;
pub mod applet;
pub mod popup;
pub mod settings;
pub mod theme;
