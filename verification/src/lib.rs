//! The Athanor session and update tools: the verified core of the notification daemon,
//! the tray watcher, the greeter, the backup tool, the image update service and its notifier.

pub mod backup;
pub mod chars;
pub mod chooser;
pub mod gatekeeper;
pub mod greeter;
pub mod i18n;
pub mod journal;
pub mod notify;
pub mod paths;
pub mod shell;
pub mod shelld;
pub mod update;
