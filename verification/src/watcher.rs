//! Following changes to the client's configuration file while tunnels run.

use crate::client::{
    are_removed, tunnels_error, Client, StartedTunnel, TunnelUpdate, TunnelUpdateView, TunnelsError,
};
use crate::config::TunnelConfig;
use crate::settings::{listed, parse_toml_tunnels, toml_tunnels, TomlTunnel};
use crate::text::same_str;
use vstd::prelude::*;

verus! {

/// How often the configuration file is read (ms).
pub const POLL_INTERVAL_MS: u64 = 500;

/// What to do after the file has been read.
#[derive(Clone, Copy, Debug, PartialEq, Eq, Structural)]
pub enum WatchStep {
    /// Nothing: the file is as it was.
    Wait,
    /// Report that the file cannot be read.
    Warn,
    /// Take the tunnels of the file on.
    Parse,
}

/// What is known of the file.
pub struct ConfigWatcher {
    last_content: String,
    last_read_error: Option<String>,
}

/// What `ConfigWatcher` says.
#[verifier::ext_equal]
pub struct ConfigWatcherView {
    /// The content read last.
    pub last_content: Seq<char>,
    /// Why the file could not be read the last time, if it could not.
    pub last_read_error: Option<Seq<char>>,
}

pub open spec fn text_view(text: Option<String>) -> Option<Seq<char>> {
    match text {
        Some(text) => Some(text@),
        None => None,
    }
}

impl View for ConfigWatcher {
    type V = ConfigWatcherView;

    closed spec fn view(&self) -> ConfigWatcherView {
        ConfigWatcherView {
            last_content: self.last_content@,
            last_read_error: text_view(self.last_read_error),
        }
    }
}

impl ConfigWatcherView {
    /// What reading the file leads to: its content, or why it cannot be read.
    pub open spec fn after(self, read: Result<Seq<char>, Seq<char>>) -> (
        ConfigWatcherView,
        WatchStep,
    ) {
        match read {
            Err(message) => if self.last_read_error == Some(message) {
                (self, WatchStep::Wait)
            } else {
                (
                    ConfigWatcherView { last_read_error: Some(message), ..self },
                    WatchStep::Warn,
                )
            },
            Ok(content) => (
                ConfigWatcherView { last_content: content, last_read_error: None },
                if content == self.last_content {
                    WatchStep::Wait
                } else {
                    WatchStep::Parse
                },
            ),
        }
    }
}

/// What was read.
pub open spec fn read_view(read: Result<String, String>) -> Result<Seq<char>, Seq<char>> {
    match read {
        Ok(content) => Ok(content@),
        Err(message) => Err(message@),
    }
}

impl ConfigWatcher {
    /// Starts from the content that is in effect.
    pub fn new(initial_content: String) -> (r: ConfigWatcher)
        ensures
            r@ == (ConfigWatcherView { last_content: initial_content@, last_read_error: None }),
    {
        ConfigWatcher { last_content: initial_content, last_read_error: None }
    }

    /// Takes note of what was read and tells what to do.
    pub fn poll(&mut self, read: Result<String, String>) -> (r: WatchStep)
        ensures
            (final(self)@, r) == old(self)@.after(read_view(read)),
    {
        match read {
            Err(message) => {
                let known = match &self.last_read_error {
                    Some(last) => same_str(last.as_str(), message.as_str()),
                    None => false,
                };
                if known {
                    WatchStep::Wait
                } else {
                    self.last_read_error = Some(message);
                    WatchStep::Warn
                }
            },
            Ok(content) => {
                self.last_read_error = None;
                if same_str(content.as_str(), self.last_content.as_str()) {
                    WatchStep::Wait
                } else {
                    self.last_content = content;
                    WatchStep::Parse
                }
            },
        }
    }

    /// The tunnels to run from now on: those that the file lists, unless the file could not be
    /// parsed (nothing comes of it) or one of its tunnels is invalid.
    pub fn update(parsed: &Option<Option<Vec<TomlTunnel>>>) -> (r: Option<Vec<TunnelConfig>>)
        ensures
            match *parsed {
                None => r is None,
                Some(tunnels) => match toml_tunnels(listed(tunnels)) {
                    Ok(all) => r is Some && r->0@ == all,
                    Err(_) => r is None,
                },
            },
    {
        match parsed {
            None => None,
            Some(tunnels) => match parse_toml_tunnels(tunnels) {
                Ok(tunnels) => Some(tunnels),
                Err(_) => None,
            },
        }
    }
}

/// Each change of the file is taken on once: what was read is not taken on again while it stays
/// the same, not even if it was invalid, and what differs from it is.
pub proof fn changes_are_taken_on_once(
    watcher: ConfigWatcherView,
    content: Seq<char>,
    next: Seq<char>,
    message: Seq<char>,
)
    ensures
        ({
            let read = watcher.after(Ok(content)).0;
            &&& read.after(Ok(content)).1 == WatchStep::Wait
            &&& next != content ==> read.after(Ok(next)).1 == WatchStep::Parse
            &&& read.after(Err(message)).0.after(Ok(content)).1 == WatchStep::Wait
            &&& read.after(Err(message)).1 == WatchStep::Warn
            &&& read.after(Err(message)).0.after(Err(message)).1 == WatchStep::Wait
        }),
{
}

/// What happened to a client that follows updates.
pub enum UpdateEvent {
    /// The program is to end.
    Shutdown,
    /// There will be no more updates.
    UpdatesClosed,
    /// These tunnels are to run.
    Update(Vec<TunnelConfig>),
    /// The removed tunnel with this index has ended.
    Ended(usize),
}

/// What to do about it.
pub enum UpdateAction {
    /// Stop the client.
    Stop,
    /// Wait; the tunnels keep running.
    Wait,
    /// Report that the update is refused; the tunnels keep running as they are.
    Refuse(TunnelsError),
    /// Cancel the tunnels with these indices and wait for each of them to end.
    Cancel(Vec<usize>),
    /// Start these tunnels, in this order; the update is complete.
    Start(Vec<StartedTunnel>),
}

/// A client that follows updates.
pub struct UpdateLoop {
    updates_open: bool,
    update: Option<TunnelUpdate>,
}

/// What `UpdateLoop` says.
#[verifier::ext_equal]
pub struct UpdateLoopView {
    /// Whether there may be more updates.
    pub updates_open: bool,
    /// The update under way, if there is one.
    pub update: Option<TunnelUpdateView>,
}

impl View for UpdateLoop {
    type V = UpdateLoopView;

    closed spec fn view(&self) -> UpdateLoopView {
        UpdateLoopView {
            updates_open: self.updates_open,
            update: match self.update {
                Some(update) => Some(update@),
                None => None,
            },
        }
    }
}

impl UpdateLoopView {
    /// An update under way is one that has been accepted.
    pub open spec fn wf(self) -> bool {
        self.update matches Some(update) ==> update.accepted()
    }

    /// Whether the event can happen: while an update is under way, nothing but the end of removed
    /// tunnels is looked for.
    pub open spec fn may_see(self, event: UpdateEvent) -> bool {
        match event {
            UpdateEvent::Shutdown => self.update is None,
            UpdateEvent::UpdatesClosed => self.update is None && self.updates_open,
            UpdateEvent::Update(_) => self.update is None && self.updates_open,
            UpdateEvent::Ended(_) => self.update is Some,
        }
    }
}

impl UpdateLoop {
    /// Updates may come.
    pub fn new() -> (r: UpdateLoop)
        ensures
            r@ == (UpdateLoopView { updates_open: true, update: None }),
    {
        UpdateLoop { updates_open: true, update: None }
    }

    /// Whether there may be more updates.
    pub fn updates_open(&self) -> (r: bool)
        ensures
            r == self@.updates_open,
    {
        self.updates_open
    }
}

impl Client {
    /// Takes note of an event and tells what to do.
    pub fn start_tunneling_with_updates(&mut self, updates: &mut UpdateLoop, event: UpdateEvent) -> (
    r: UpdateAction)
        requires
            old(updates)@.wf(),
            old(updates)@.may_see(event),
        ensures
            final(updates)@.wf(),
            final(updates)@.updates_open == (old(updates)@.updates_open
                && !(event is UpdatesClosed)),
            match event {
                UpdateEvent::Shutdown => r is Stop && final(self)@ == old(self)@
                    && final(updates)@.update is None,
                UpdateEvent::UpdatesClosed => r is Wait && final(self)@ == old(self)@
                    && final(updates)@.update is None,
                UpdateEvent::Update(tunnels) => match tunnels_error(tunnels@) {
                    Some(e) => {
                        &&& r == UpdateAction::Refuse(e)
                        &&& final(self)@ == old(self)@
                        &&& final(updates)@.update is None
                    },
                    None => {
                        let reduced = old(self)@.reduced_to(tunnels@);
                        match r {
                            UpdateAction::Cancel(removed) => {
                                &&& removed@.len() > 0
                                &&& are_removed(removed@, old(self)@.tunnel_tasks, tunnels@)
                                &&& final(self)@ == reduced
                                &&& final(updates)@.update == Some(
                                    TunnelUpdateView { tunnels: tunnels@, waiting: removed@ },
                                )
                            },
                            UpdateAction::Start(started) => {
                                &&& are_removed(Seq::empty(), old(self)@.tunnel_tasks, tunnels@)
                                &&& started@ == reduced.missing(tunnels@)
                                &&& final(self)@ == reduced.extended_to(tunnels@)
                                &&& final(updates)@.update is None
                            },
                            _ => false,
                        }
                    },
                },
                UpdateEvent::Ended(index) => {
                    let update = old(updates)@.update->0.without(index);
                    if update.waiting.len() > 0 {
                        &&& r is Wait
                        &&& final(self)@ == old(self)@
                        &&& final(updates)@.update == Some(update)
                    } else {
                        &&& r is Start
                        &&& r->Start_0@ == old(self)@.missing(update.tunnels)
                        &&& final(self)@ == old(self)@.extended_to(update.tunnels)
                        &&& final(updates)@.update is None
                    }
                },
            },
    {
        match event {
            UpdateEvent::Shutdown => UpdateAction::Stop,
            UpdateEvent::UpdatesClosed => {
                updates.updates_open = false;
                UpdateAction::Wait
            },
            UpdateEvent::Update(tunnels) => match self.update_tunnels(tunnels) {
                Err(e) => UpdateAction::Refuse(e),
                Ok(update) => match self.start_updated(&update) {
                    Some(started) => {
                        assert(update@.waiting =~= Seq::empty());
                        UpdateAction::Start(started)
                    },
                    None => {
                        let removed = update.waiting_for();
                        updates.update = Some(update);
                        UpdateAction::Cancel(removed)
                    },
                },
            },
            UpdateEvent::Ended(index) => match updates.update.take() {
                Some(update) => {
                    let mut update = update;
                    update.ended(index);
                    match self.start_updated(&update) {
                        Some(started) => UpdateAction::Start(started),
                        None => {
                            updates.update = Some(update);
                            UpdateAction::Wait
                        },
                    }
                },
                None => UpdateAction::Wait,
            },
        }
    }
}

} // verus!
