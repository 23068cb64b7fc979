use vstd::prelude::*;

verus! {

/// The errors that the controller and its persistence report.
#[derive(Clone, Copy, Debug, PartialEq, Eq, Structural)]
pub enum FlowyError {
    /// No user session is active, so no token is available.
    Unauthorized,
    /// A referenced id does not exist in persistence.
    RecordNotFound,
    /// The cloud call failed.
    Network,
    /// A persistence rule was broken (a duplicate id, an index out of range).
    Internal,
}

/// The mathematical model of an app row: its strings as character sequences.
pub ghost struct AppSpec {
    pub id: Seq<char>,
    pub workspace_id: Seq<char>,
    pub name: Seq<char>,
    pub desc: Seq<char>,
    pub color_style: Seq<char>,
    pub modified_time: int,
    pub create_time: int,
}

/// A persisted app record. Its position is its place among the apps of its
/// workspace in the store.
#[derive(Clone, Debug)]
pub struct AppRevision {
    pub id: String,
    pub workspace_id: String,
    pub name: String,
    pub desc: String,
    pub color_style: String,
    pub modified_time: i64,
    pub create_time: i64,
}

impl View for AppRevision {
    type V = AppSpec;

    open spec fn view(&self) -> AppSpec {
        AppSpec {
            id: self.id@,
            workspace_id: self.workspace_id@,
            name: self.name@,
            desc: self.desc@,
            color_style: self.color_style@,
            modified_time: self.modified_time as int,
            create_time: self.create_time as int,
        }
    }
}

impl AppRevision {
    /// A copy of the row, field by field.
    pub fn duplicate(&self) -> (r: AppRevision)
        ensures
            r@ == self@,
    {
        AppRevision {
            id: self.id.clone(),
            workspace_id: self.workspace_id.clone(),
            name: self.name.clone(),
            desc: self.desc.clone(),
            color_style: self.color_style.clone(),
            modified_time: self.modified_time,
            create_time: self.create_time,
        }
    }
}

/// The models of a sequence of rows.
pub open spec fn views(v: Seq<AppRevision>) -> Seq<AppSpec> {
    v.map_values(|a: AppRevision| a@)
}

/// The view object of an app that callers and subscribers receive.
#[derive(Clone, Debug)]
pub struct AppPB {
    pub id: String,
    pub workspace_id: String,
    pub name: String,
    pub desc: String,
    pub color_style: String,
    pub modified_time: i64,
    pub create_time: i64,
}

impl View for AppPB {
    type V = AppSpec;

    open spec fn view(&self) -> AppSpec {
        AppSpec {
            id: self.id@,
            workspace_id: self.workspace_id@,
            name: self.name@,
            desc: self.desc@,
            color_style: self.color_style@,
            modified_time: self.modified_time as int,
            create_time: self.create_time as int,
        }
    }
}

impl AppPB {
    /// Projects a row to its view object.
    pub fn from_revision(rev: &AppRevision) -> (r: AppPB)
        ensures
            r@ == rev@,
    {
        AppPB {
            id: rev.id.clone(),
            workspace_id: rev.workspace_id.clone(),
            name: rev.name.clone(),
            desc: rev.desc.clone(),
            color_style: rev.color_style.clone(),
            modified_time: rev.modified_time,
            create_time: rev.create_time,
        }
    }
}

/// The models of a sequence of view objects.
pub open spec fn pb_views(v: Seq<AppPB>) -> Seq<AppSpec> {
    v.map_values(|a: AppPB| a@)
}

/// The list of apps of one workspace, as published to subscribers.
#[derive(Clone, Debug)]
pub struct RepeatedAppPB {
    pub items: Vec<AppPB>,
}

/// What is needed to mint a new app; the id comes from the cloud.
#[derive(Clone, Debug)]
pub struct CreateAppParams {
    pub workspace_id: String,
    pub name: String,
    pub desc: String,
    pub color_style: String,
}

/// An update request: the id of the app and the fields to change.
#[derive(Clone, Debug)]
pub struct UpdateAppParams {
    pub id: String,
    pub name: Option<String>,
    pub desc: Option<String>,
    pub color_style: Option<String>,
    pub is_trash: Option<bool>,
}

/// The model of a changeset: the id and the fields that it sets.
pub ghost struct ChangesetSpec {
    pub id: Seq<char>,
    pub name: Option<Seq<char>>,
    pub desc: Option<Seq<char>>,
    pub color_style: Option<Seq<char>>,
}

pub open spec fn opt_view(o: Option<String>) -> Option<Seq<char>> {
    match o {
        Some(s) => Some(s@),
        None => None,
    }
}

/// A sparse update of one row. Trash membership is kept by the trash
/// subsystem, not in the row, so the changeset carries no trash flag.
#[derive(Clone, Debug)]
pub struct AppChangeset {
    pub id: String,
    pub name: Option<String>,
    pub desc: Option<String>,
    pub color_style: Option<String>,
}

impl View for AppChangeset {
    type V = ChangesetSpec;

    open spec fn view(&self) -> ChangesetSpec {
        ChangesetSpec {
            id: self.id@,
            name: opt_view(self.name),
            desc: opt_view(self.desc),
            color_style: opt_view(self.color_style),
        }
    }
}

impl View for UpdateAppParams {
    type V = ChangesetSpec;

    open spec fn view(&self) -> ChangesetSpec {
        ChangesetSpec {
            id: self.id@,
            name: opt_view(self.name),
            desc: opt_view(self.desc),
            color_style: opt_view(self.color_style),
        }
    }
}

fn clone_opt(o: &Option<String>) -> (r: Option<String>)
    ensures
        opt_view(r) == opt_view(*o),
{
    match o {
        Some(s) => Some(s.clone()),
        None => None,
    }
}

impl AppChangeset {
    /// The changeset of an update request: the same id and fields.
    pub fn new(params: &UpdateAppParams) -> (r: AppChangeset)
        ensures
            r@ == params@,
    {
        AppChangeset {
            id: params.id.clone(),
            name: clone_opt(&params.name),
            desc: clone_opt(&params.desc),
            color_style: clone_opt(&params.color_style),
        }
    }
}

/// The row after a changeset: each field that the changeset sets is replaced.
pub open spec fn apply_changeset(a: AppSpec, c: ChangesetSpec) -> AppSpec {
    AppSpec {
        name: match c.name {
            Some(n) => n,
            None => a.name,
        },
        desc: match c.desc {
            Some(d) => d,
            None => a.desc,
        },
        color_style: match c.color_style {
            Some(s) => s,
            None => a.color_style,
        },
        ..a
    }
}

/// The topics of the notifications that the controller publishes.
#[derive(Clone, Copy, Debug, PartialEq, Eq, Structural)]
pub enum FolderNotification {
    DidUpdateApp,
    DidUpdateWorkspaceApps,
}

/// The model of a notification.
pub ghost struct NoteSpec {
    pub key: Seq<char>,
    pub ty: FolderNotification,
    pub items: Seq<AppSpec>,
}

/// A notification keyed by an app or workspace id. A `DidUpdateApp` carries
/// one item, the updated app; a `DidUpdateWorkspaceApps` carries the visible
/// apps of the workspace in order.
#[derive(Clone, Debug)]
pub struct Notification {
    pub key: String,
    pub ty: FolderNotification,
    pub items: Vec<AppPB>,
}

impl View for Notification {
    type V = NoteSpec;

    open spec fn view(&self) -> NoteSpec {
        NoteSpec { key: self.key@, ty: self.ty, items: pb_views(self.items@) }
    }
}

pub open spec fn note_views(v: Seq<Notification>) -> Seq<NoteSpec> {
    v.map_values(|n: Notification| n@)
}

/// The kinds of entities that the trash holds.
#[derive(Clone, Copy, Debug, PartialEq, Eq, Structural)]
pub enum TrashType {
    TrashUnknown,
    TrashView,
    TrashApp,
}

/// One entry of a trash event.
#[derive(Clone, Debug)]
pub struct TrashItem {
    pub id: String,
    pub ty: TrashType,
}

/// An event of the trash subsystem. The acknowledgement channel stays with
/// whoever receives the event; the handler returns what it must carry.
#[derive(Clone, Debug)]
pub enum TrashEvent {
    NewTrash(Vec<TrashItem>),
    Putback(Vec<TrashItem>),
    Delete(Vec<TrashItem>),
}

} // verus!
