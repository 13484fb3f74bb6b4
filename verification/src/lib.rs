//! Verified interaction logic of the Coquerythmo user interface: keyboard
//! focus, file-tree rows and menus, modal dialogs' keyboard models, dropdown
//! state machines, the comic dubs workspace and automation editor event
//! steps, and the pure helpers they rely on.

pub mod event;
pub mod focus;
pub mod i18n;
pub mod project;
pub mod text;
pub mod file_explorer;
pub mod text_input;
pub mod connect_modal;
pub mod invitation_modal;
pub mod interactive;
pub mod export;
pub mod font_dropdown;
pub mod comic_dubs_settings;
pub mod dropdown;
pub mod language_modal;
pub mod comic_dubs;
pub mod icons;
pub mod workspace;
pub mod automation;
