//! Terminal front ends.
pub mod actions;
pub mod answers;
pub mod arguments;
pub mod client;
pub mod clipboard;
pub mod devices;
pub mod dispatch;
pub mod display;
pub mod document;
pub mod drafts;
pub mod editor;
pub mod errors;
pub mod export;
pub mod extensions;
pub mod external;
pub mod external_ui;
pub mod files;
pub mod frames;
pub mod headless;
pub mod history_search;
pub mod home;
pub mod identity;
pub mod images;
pub mod input;
pub mod inspector;
pub mod journal;
pub mod keys;
pub mod job_preview;
pub mod lanes;
pub mod line_client;
pub mod native_addons;
pub mod number;
pub mod output;
pub mod pages;
pub mod plugin;
pub mod plugins;
pub mod presentation;
pub mod profiles;
pub mod profiles_ui;
pub mod prompts;
pub mod recovery;
pub mod references;
pub mod request_details;
pub mod retention;
pub mod routing;
pub mod scene;
pub mod session_command;
pub mod setup;
pub mod setup_laws;
pub mod setup_ui;
pub mod slash;
pub mod slash_ui;
pub mod stdin;
pub mod submission;
pub mod surfaces;
pub mod text;
