//! The entry model: one launchable thing, as a tagged variant, together with
//! its usage fields and the strings the list view derives from it.

use vstd::prelude::*;
use vstd::string::StringExecFns;
use crate::listcontentprovider::ListItem;

verus! {

/// What kind of target an entry resolves to.
#[derive(Debug)]
pub enum AppEntryKind {
    /// A directly executable target: something a path can start.
    Exe { path: String, params: String },
    /// An indirection (a shortcut); `target_path` is display-only.
    Link { path: String, params: String, target_path: String },
    /// A packaged app, resolved by the platform from its identifiers.
    Appx { identity_id: String, publisher_id: String, application_id: String, path: String },
    /// The literal, unresolved text the user typed; parsed at activation.
    Command { command: String },
}

/// One launchable catalog entry. `name` is the display and search key and
/// must be unique within the frecency store; `use_count` and
/// `last_use_time` are the persisted usage fields.
#[derive(Debug)]
pub struct AppEntry {
    pub name: String,
    pub use_count: u32,
    /// Seconds since the Unix epoch; stamped by the caller on each use.
    pub last_use_time: u64,
    pub kind: AppEntryKind,
}

impl Clone for AppEntryKind {
    fn clone(&self) -> (r: Self)
        ensures
            r == *self,
    {
        match self {
            AppEntryKind::Exe { path, params } => AppEntryKind::Exe {
                path: path.clone(),
                params: params.clone(),
            },
            AppEntryKind::Link { path, params, target_path } => AppEntryKind::Link {
                path: path.clone(),
                params: params.clone(),
                target_path: target_path.clone(),
            },
            AppEntryKind::Appx { identity_id, publisher_id, application_id, path } => {
                AppEntryKind::Appx {
                    identity_id: identity_id.clone(),
                    publisher_id: publisher_id.clone(),
                    application_id: application_id.clone(),
                    path: path.clone(),
                }
            },
            AppEntryKind::Command { command } => AppEntryKind::Command {
                command: command.clone(),
            },
        }
    }
}

impl Clone for AppEntry {
    fn clone(&self) -> (r: Self)
        ensures
            r == *self,
    {
        AppEntry {
            name: self.name.clone(),
            use_count: self.use_count,
            last_use_time: self.last_use_time,
            kind: self.kind.clone(),
        }
    }
}

impl Default for AppEntry {
    /// An empty executable entry that has never been used.
    fn default() -> (r: Self)
        ensures
            r.name@ == Seq::<char>::empty(),
            r.use_count == 0,
            r.last_use_time == 0,
            r.kind matches AppEntryKind::Exe { path, params } && path@ == Seq::<char>::empty()
                && params@ == Seq::<char>::empty(),
    {
        AppEntry {
            name: String::new(),
            use_count: 0,
            last_use_time: 0,
            kind: AppEntryKind::Exe { path: String::new(), params: String::new() },
        }
    }
}

/// The mathematical model of an entry kind: the same variants with the
/// string fields as character sequences.
pub enum KindModel {
    Exe { path: Seq<char>, params: Seq<char> },
    Link { path: Seq<char>, params: Seq<char>, target_path: Seq<char> },
    Appx {
        identity_id: Seq<char>,
        publisher_id: Seq<char>,
        application_id: Seq<char>,
        path: Seq<char>,
    },
    Command { command: Seq<char> },
}

/// The mathematical model of an entry.
pub struct EntryModel {
    pub name: Seq<char>,
    pub use_count: u32,
    pub last_use_time: u64,
    pub kind: KindModel,
}

impl View for AppEntryKind {
    type V = KindModel;

    open spec fn view(&self) -> KindModel {
        match self {
            AppEntryKind::Exe { path, params } => KindModel::Exe {
                path: path@,
                params: params@,
            },
            AppEntryKind::Link { path, params, target_path } => KindModel::Link {
                path: path@,
                params: params@,
                target_path: target_path@,
            },
            AppEntryKind::Appx { identity_id, publisher_id, application_id, path } => {
                KindModel::Appx {
                    identity_id: identity_id@,
                    publisher_id: publisher_id@,
                    application_id: application_id@,
                    path: path@,
                }
            },
            AppEntryKind::Command { command } => KindModel::Command { command: command@ },
        }
    }
}

impl DeepView for AppEntryKind {
    type V = KindModel;

    open spec fn deep_view(&self) -> KindModel {
        self.view()
    }
}

impl View for AppEntry {
    type V = EntryModel;

    open spec fn view(&self) -> EntryModel {
        EntryModel {
            name: self.name@,
            use_count: self.use_count,
            last_use_time: self.last_use_time,
            kind: self.kind@,
        }
    }
}

impl DeepView for AppEntry {
    type V = EntryModel;

    open spec fn deep_view(&self) -> EntryModel {
        self.view()
    }
}

/// The display string of an entry: the name, with the link target or the
/// command text appended in parentheses where that adds information.
pub open spec fn spec_display_string(e: AppEntry) -> Seq<char> {
    match e.kind {
        AppEntryKind::Exe { .. } => e.name@,
        AppEntryKind::Link { target_path, .. } => e.name@ + " ("@ + target_path@ + ")"@,
        AppEntryKind::Appx { .. } => e.name@,
        AppEntryKind::Command { command } => {
            if e.name@.len() > 0 && e.name@ != command@ {
                e.name@ + " ("@ + command@ + ")"@
            } else {
                command@
            }
        },
    }
}

/// The match string of an entry: the canonical name, or the raw command
/// text for a command entry.
pub open spec fn spec_match_string(e: AppEntry) -> Seq<char> {
    match e.kind {
        AppEntryKind::Command { command } => command@,
        _ => e.name@,
    }
}

impl ListItem for AppEntry {
    fn as_string(&self) -> (r: String)
        ensures
            r@ == spec_display_string(*self),
    {
        match &self.kind {
            AppEntryKind::Exe { .. } => self.name.clone(),
            AppEntryKind::Link { target_path, .. } => {
                let mut s = self.name.clone();
                s.append(" (");
                s.append(target_path.as_str());
                s.append(")");
                s
            },
            AppEntryKind::Appx { .. } => self.name.clone(),
            AppEntryKind::Command { command } => {
                if !self.name.as_str().is_empty() && !self.name.eq(command) {
                    let mut s = self.name.clone();
                    s.append(" (");
                    s.append(command.as_str());
                    s.append(")");
                    s
                } else {
                    command.clone()
                }
            },
        }
    }

    fn as_matchable_string(&self) -> (r: String)
        ensures
            r@ == spec_match_string(*self),
    {
        match &self.kind {
            AppEntryKind::Command { command } => command.clone(),
            _ => self.name.clone(),
        }
    }
}

impl AppEntry {
    /// Whether this entry's name is exactly the query.
    pub fn exact_match(&self, query: &str) -> (r: bool)
        ensures
            r == (self.name@ == query@),
    {
        self.name.eq(&String::from_str(query))
    }
}

} // verus!
