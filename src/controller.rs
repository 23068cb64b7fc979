use vstd::prelude::*;
use crate::entities::{
    AppPB, AppRevision, AppSpec, AppChangeset, FlowyError, FolderNotification, Notification,
    NoteSpec, TrashEvent, TrashType, UpdateAppParams, apply_changeset, note_views, pb_views, views,
};
use crate::persistence::{
    FolderPersistence, app_of, apps_in, first_index, has_app, ids, is_first, lemma_first_unique, moved,
    untrashed, visible_in,
};
use crate::trash::{TrashController, contains_in_prefix, event_items, item_ids, items_of, strs};

verus! {

/// The notification that publishes the visible apps of workspace `w`.
pub open spec fn apps_note(w: Seq<char>, s: Seq<AppSpec>, trash: Set<Seq<char>>) -> NoteSpec {
    NoteSpec { key: w, ty: FolderNotification::DidUpdateWorkspaceApps, items: visible_in(s, w, trash) }
}

/// One workspace notification for each workspace of `ws`, in that order.
pub open spec fn apps_notes(ws: Seq<Seq<char>>, s: Seq<AppSpec>, trash: Set<Seq<char>>) -> Seq<NoteSpec> {
    ws.map_values(|w: Seq<char>| apps_note(w, s, trash))
}

/// The notification that publishes one updated app.
pub open spec fn app_note(a: AppSpec) -> NoteSpec {
    NoteSpec { key: a.id, ty: FolderNotification::DidUpdateApp, items: seq![a] }
}

/// The distinct elements of `s`, in the order of their first occurrence.
pub open spec fn dedup(s: Seq<Seq<char>>) -> Seq<Seq<char>>
    decreases s.len(),
{
    if s.len() == 0 {
        Seq::empty()
    } else {
        let d = dedup(s.drop_last());
        if d.contains(s.last()) {
            d
        } else {
            d.push(s.last())
        }
    }
}

/// The workspace of the app that each id finds.
pub open spec fn workspaces_of(s: Seq<AppSpec>, ids: Seq<Seq<char>>) -> Seq<Seq<char>> {
    ids.map_values(|id: Seq<char>| app_of(s, id).workspace_id)
}

/// Every id finds an app.
pub open spec fn all_present(s: Seq<AppSpec>, ids: Seq<Seq<char>>) -> bool {
    forall|k: int| 0 <= k < ids.len() ==> has_app(s, #[trigger] ids[k])
}

/// The store after deleting the app that each id finds, one after another.
pub open spec fn delete_all(s: Seq<AppSpec>, ids: Seq<Seq<char>>) -> Seq<AppSpec>
    decreases ids.len(),
{
    if ids.len() == 0 {
        s
    } else {
        let t = delete_all(s, ids.drop_last());
        t.remove(first_index(t, ids.last()))
    }
}

pub open spec fn is_delete(e: TrashEvent) -> bool {
    e is Delete
}

/// What handling a trash event with these app ids does: where every id
/// finds an app (and, for a deletion, no id repeats) it succeeds, deletes
/// the apps for a deletion, and then publishes each workspace of the apps
/// once, from the new store; otherwise it fails with `RecordNotFound` and
/// changes nothing.
pub open spec fn trash_outcome(
    before: AppController,
    after: AppController,
    delete: bool,
    ids: Seq<Seq<char>>,
    r: Result<(), FlowyError>,
) -> bool {
    let s = before.store();
    let t = before.trash();
    let ok = all_present(s, ids) && (delete ==> ids.no_duplicates());
    &&& !ok ==> r == Err::<(), FlowyError>(FlowyError::RecordNotFound) && after.same_state(&before)
    &&& ok ==> r is Ok && after.trash() == t && after.listening() == before.listening()
        && after.store() == (if delete {
        delete_all(s, ids)
    } else {
        s
    }) && after.notes() == before.notes() + apps_notes(dedup(workspaces_of(s, ids)), after.store(), t)
}

/// The visible apps of a workspace: its apps in their order, less those
/// whose ids are in the trash.
pub fn read_workspace_apps(
    workspace_id: &String,
    trash_controller: &TrashController,
    transaction: &FolderPersistence,
) -> (r: Result<Vec<AppRevision>, FlowyError>)
    ensures
        r matches Ok(v) && views(v@) == visible_in(transaction@, workspace_id@, trash_controller@),
{
    let all = transaction.read_workspace_apps(workspace_id);
    let ghost l = views(all@);
    let mut out: Vec<AppRevision> = Vec::new();
    let mut i: usize = 0;
    while i < all.len()
        invariant
            0 <= i <= all.len(),
            l == views(all@),
            views(out@) == untrashed(l.take(i as int), trash_controller@),
        decreases all.len() - i,
    {
        assert(l.take(i + 1).drop_last() =~= l.take(i as int));
        if !trash_controller.contains(&all[i].id) {
            out.push(all[i].duplicate());
        }
        assert(views(out@) =~= untrashed(l.take(i + 1), trash_controller@));
        i = i + 1;
    }
    assert(l.take(i as int) =~= l);
    Ok(out)
}

/// The view objects of the rows.
fn project_all(v: &Vec<AppRevision>) -> (r: Vec<AppPB>)
    ensures
        pb_views(r@) == views(v@),
{
    let mut out: Vec<AppPB> = Vec::new();
    let mut i: usize = 0;
    while i < v.len()
        invariant
            0 <= i <= v.len(),
            pb_views(out@) == views(v@).take(i as int),
        decreases v.len() - i,
    {
        let ghost prev = out@;
        out.push(AppPB::from_revision(&v[i]));
        assert(pb_views(out@) =~= pb_views(prev).push(v@[i as int]@));
        assert(pb_views(out@) =~= views(v@).take(i + 1));
        i = i + 1;
    }
    assert(views(v@).take(i as int) =~= views(v@));
    out
}

/// Publishes the visible apps of the workspace to the outbox.
pub fn notify_apps_changed(
    workspace_id: &String,
    trash_controller: &TrashController,
    transaction: &FolderPersistence,
    outbox: &mut Vec<Notification>,
) -> (r: Result<(), FlowyError>)
    ensures
        r is Ok,
        note_views(final(outbox)@) == note_views(old(outbox)@).push(
            apps_note(workspace_id@, transaction@, trash_controller@),
        ),
{
    match read_workspace_apps(workspace_id, trash_controller, transaction) {
        Ok(apps) => {
            let items = project_all(&apps);
            outbox.push(
                Notification {
                    key: workspace_id.clone(),
                    ty: FolderNotification::DidUpdateWorkspaceApps,
                    items,
                },
            );
            assert(note_views(outbox@) =~= note_views(old(outbox)@).push(
                apps_note(workspace_id@, transaction@, trash_controller@),
            ));
            Ok(())
        },
        Err(e) => Err(e),
    }
}

/// The distinct strings of `v`, in the order of their first occurrence.
fn dedup_strings(v: &Vec<String>) -> (r: Vec<String>)
    ensures
        strs(r@) == dedup(strs(v@)),
{
    let mut out: Vec<String> = Vec::new();
    let mut i: usize = 0;
    while i < v.len()
        invariant
            0 <= i <= v.len(),
            strs(out@) == dedup(strs(v@).take(i as int)),
        decreases v.len() - i,
    {
        assert(strs(v@).take(i + 1).drop_last() =~= strs(v@).take(i as int));
        assert(strs(v@).take(i + 1).last() == strs(v@)[i as int]);
        let n = out.len();
        let seen = contains_in_prefix(&out, n, &v[i]);
        assert(strs(out@).take(n as int) =~= strs(out@));
        if !seen {
            out.push(v[i].clone());
            assert(strs(out@) =~= dedup(strs(v@).take(i + 1)));
        }
        i = i + 1;
    }
    assert(strs(v@).take(i as int) =~= strs(v@));
    out
}

/// Coordinates the lifecycle of apps over the store, the trash and the
/// notification outbox.
pub struct AppController {
    persistence: FolderPersistence,
    trash_controller: TrashController,
    notifications: Vec<Notification>,
    listening: bool,
}

impl AppController {
    /// The rows of the store.
    pub closed spec fn store(&self) -> Seq<AppSpec> {
        self.persistence@
    }

    /// The trashed ids.
    pub closed spec fn trash(&self) -> Set<Seq<char>> {
        self.trash_controller@
    }

    /// The notifications published and not yet taken, oldest first.
    pub closed spec fn notes(&self) -> Seq<NoteSpec> {
        note_views(self.notifications@)
    }

    /// Whether the trash listener is registered.
    pub closed spec fn listening(&self) -> bool {
        self.listening
    }

    /// No two apps of the store share an id.
    pub open spec fn wf(&self) -> bool {
        ids(self.store()).no_duplicates()
    }

    pub open spec fn same_state(&self, other: &AppController) -> bool {
        &&& self.store() == other.store()
        &&& self.trash() == other.trash()
        &&& self.notes() == other.notes()
        &&& self.listening() == other.listening()
    }

    pub fn new(persistence: FolderPersistence, trash_can: TrashController) -> (r: AppController)
        requires
            persistence.wf(),
        ensures
            r.wf(),
            r.store() == persistence@,
            r.trash() == trash_can@,
            r.notes() == Seq::<NoteSpec>::empty(),
            !r.listening(),
    {
        let r = AppController {
            persistence,
            trash_controller: trash_can,
            notifications: Vec::new(),
            listening: false,
        };
        assert(r.notes() =~= Seq::<NoteSpec>::empty());
        r
    }

    /// Registers the trash listener; a second call changes nothing.
    pub fn initialize(&mut self) -> (r: Result<(), FlowyError>)
        ensures
            r is Ok,
            final(self).listening(),
            final(self).store() == old(self).store(),
            final(self).trash() == old(self).trash(),
            final(self).notes() == old(self).notes(),
    {
        self.listening = true;
        Ok(())
    }

    pub fn is_listening(&self) -> (r: bool)
        ensures
            r == self.listening(),
    {
        self.listening
    }

    /// The trash subsystem has replaced its set of trashed ids.
    pub fn set_trash_ids(&mut self, trash_ids: Vec<String>)
        ensures
            final(self).trash() == strs(trash_ids@).to_set(),
            final(self).store() == old(self).store(),
            final(self).notes() == old(self).notes(),
            final(self).listening() == old(self).listening(),
    {
        self.trash_controller.set_trash_ids(trash_ids);
    }

    /// Inserts an app minted elsewhere and publishes its workspace.
    pub fn create_app_on_local(&mut self, app: AppRevision) -> (r: Result<AppPB, FlowyError>)
        requires
            old(self).wf(),
        ensures
            final(self).wf(),
            has_app(old(self).store(), app@.id) ==> r == Err::<AppPB, FlowyError>(
                FlowyError::Internal,
            ) && final(self).same_state(old(self)),
            !has_app(old(self).store(), app@.id) ==> (r matches Ok(pb) && pb@ == app@
                && final(self).store() == old(self).store().push(app@)
                && final(self).notes() == old(self).notes().push(
                apps_note(app@.workspace_id, final(self).store(), old(self).trash()),
            ) && final(self).trash() == old(self).trash()
                && final(self).listening() == old(self).listening()),
    {
        let pb = AppPB::from_revision(&app);
        let workspace_id = app.workspace_id.clone();
        match self.persistence.create_app(app) {
            Ok(()) => {},
            Err(e) => return Err(e),
        }
        match notify_apps_changed(
            &workspace_id,
            &self.trash_controller,
            &self.persistence,
            &mut self.notifications,
        ) {
            Ok(()) => Ok(pb),
            Err(e) => Err(e),
        }
    }

    /// Stores the app that the cloud created, or hands on the failure of
    /// the token lookup or of the cloud call and changes nothing.
    pub fn create_app_from_params(&mut self, created: Result<AppRevision, FlowyError>) -> (r: Result<
        AppPB,
        FlowyError,
    >)
        requires
            old(self).wf(),
        ensures
            final(self).wf(),
            match created {
                Err(e) => r == Err::<AppPB, FlowyError>(e) && final(self).same_state(old(self)),
                Ok(app) => {
                    &&& has_app(old(self).store(), app@.id) ==> r == Err::<AppPB, FlowyError>(
                        FlowyError::Internal,
                    ) && final(self).same_state(old(self))
                    &&& !has_app(old(self).store(), app@.id) ==> (r matches Ok(pb) && pb@ == app@
                        && final(self).store() == old(self).store().push(app@)
                        && final(self).notes() == old(self).notes().push(
                        apps_note(app@.workspace_id, final(self).store(), old(self).trash()),
                    ) && final(self).trash() == old(self).trash()
                        && final(self).listening() == old(self).listening())
                },
            },
    {
        match created {
            Ok(app) => self.create_app_on_local(app),
            Err(e) => Err(e),
        }
    }

    /// The app with the id; `None` where it is in the trash.
    pub fn read_app(&self, app_id: &String) -> (r: Result<Option<AppRevision>, FlowyError>)
        ensures
            !has_app(self.store(), app_id@) ==> r == Err::<Option<AppRevision>, FlowyError>(
                FlowyError::RecordNotFound,
            ),
            has_app(self.store(), app_id@) && self.trash().contains(app_id@) ==> r matches Ok(None),
            has_app(self.store(), app_id@) && !self.trash().contains(app_id@) ==> (r matches Ok(
                Some(a),
            ) && a@ == app_of(self.store(), app_id@)),
    {
        let app = match self.persistence.read_app(app_id) {
            Ok(a) => a,
            Err(e) => return Err(e),
        };
        if self.trash_controller.contains(&app.id) {
            return Ok(None);
        }
        Ok(Some(app))
    }

    /// Applies the update locally and publishes the updated app. The cloud
    /// update that follows is the caller's, and its outcome changes nothing here.
    pub fn update_app(&mut self, params: &UpdateAppParams) -> (r: Result<(), FlowyError>)
        requires
            old(self).wf(),
        ensures
            final(self).wf(),
            !has_app(old(self).store(), params@.id) ==> r == Err::<(), FlowyError>(
                FlowyError::RecordNotFound,
            ) && final(self).same_state(old(self)),
            has_app(old(self).store(), params@.id) ==> r is Ok && final(self).store() == old(
                self,
            ).store().update(
                first_index(old(self).store(), params@.id),
                apply_changeset(app_of(old(self).store(), params@.id), params@),
            ) && final(self).notes() == old(self).notes().push(
                app_note(apply_changeset(app_of(old(self).store(), params@.id), params@)),
            ) && final(self).trash() == old(self).trash()
                && final(self).listening() == old(self).listening(),
    {
        let changeset = AppChangeset::new(params);
        let app_id = changeset.id.clone();
        match self.persistence.update_app(&changeset) {
            Ok(()) => {},
            Err(e) => return Err(e),
        }
        proof {
            let s0 = old(self).store();
            let p = first_index(s0, params@.id);
            let v = apply_changeset(app_of(s0, params@.id), params@);
            assert(self.store()[p] == v);
            assert(is_first(self.store(), app_id@, p));
            lemma_first_unique(self.store(), app_id@, p);
        }
        let app = match self.persistence.read_app(&app_id) {
            Ok(a) => a,
            Err(e) => return Err(e),
        };
        let pb = AppPB::from_revision(&app);
        let mut items: Vec<AppPB> = Vec::new();
        items.push(pb);
        assert(pb_views(items@) =~= seq![app@]);
        self.notifications.push(
            Notification { key: app_id, ty: FolderNotification::DidUpdateApp, items },
        );
        assert(self.notes() =~= old(self).notes().push(app_note(app@)));
        Ok(())
    }

    /// Moves the app at position `from` of the workspace of `app_id` to
    /// position `to`, and publishes that workspace.
    pub fn move_app(&mut self, app_id: &String, from: usize, to: usize) -> (r: Result<(), FlowyError>)
        requires
            old(self).wf(),
        ensures
            final(self).wf(),
            ({
                let s = old(self).store();
                let w = app_of(s, app_id@).workspace_id;
                let l = apps_in(s, w);
                &&& !has_app(s, app_id@) ==> r == Err::<(), FlowyError>(FlowyError::RecordNotFound)
                    && final(self).same_state(old(self))
                &&& has_app(s, app_id@) && !(from < l.len() && to < l.len()) ==> r == Err::<
                    (),
                    FlowyError,
                >(FlowyError::Internal) && final(self).same_state(old(self))
                &&& has_app(s, app_id@) && from < l.len() && to < l.len() ==> r is Ok
                    && apps_in(final(self).store(), w) == moved(l, from as int, to as int)
                    && (forall|x: Seq<char>|
                    x != w ==> #[trigger] apps_in(final(self).store(), x) == apps_in(s, x))
                    && final(self).notes() == old(self).notes().push(
                    apps_note(w, final(self).store(), old(self).trash()),
                ) && final(self).trash() == old(self).trash()
                    && final(self).listening() == old(self).listening()
            }),
    {
        let app = match self.persistence.read_app(app_id) {
            Ok(a) => a,
            Err(e) => return Err(e),
        };
        match self.persistence.move_app(app_id, from, to) {
            Ok(()) => {},
            Err(e) => return Err(e),
        }
        notify_apps_changed(
            &app.workspace_id,
            &self.trash_controller,
            &self.persistence,
            &mut self.notifications,
        )
    }

    /// The rows with the ids, in order, trashed or not; `RecordNotFound`
    /// where one of them is missing.
    pub fn read_local_apps(&self, ids: &Vec<String>) -> (r: Result<Vec<AppRevision>, FlowyError>)
        ensures
            all_present(self.store(), strs(ids@)) ==> (r matches Ok(v) && views(v@) == strs(
                ids@,
            ).map_values(|id: Seq<char>| app_of(self.store(), id))),
            !all_present(self.store(), strs(ids@)) ==> r == Err::<Vec<AppRevision>, FlowyError>(
                FlowyError::RecordNotFound,
            ),
    {
        let mut apps: Vec<AppRevision> = Vec::new();
        let mut i: usize = 0;
        while i < ids.len()
            invariant
                0 <= i <= ids.len(),
                all_present(self.store(), strs(ids@).take(i as int)),
                views(apps@) == strs(ids@).take(i as int).map_values(
                    |id: Seq<char>| app_of(self.store(), id),
                ),
            decreases ids.len() - i,
        {
            match self.persistence.read_app(&ids[i]) {
                Ok(a) => {
                    let ghost prev = apps@;
                    apps.push(a);
                    assert(views(apps@) =~= views(prev).push(a@));
                    assert(views(apps@) =~= strs(ids@).take(i + 1).map_values(
                        |id: Seq<char>| app_of(self.store(), id),
                    ));
                    assert forall|k: int| 0 <= k < i + 1 implies has_app(
                        self.store(),
                        #[trigger] strs(ids@).take(i + 1)[k],
                    ) by {
                        if k < i {
                            assert(strs(ids@).take(i as int)[k] == strs(ids@).take(i + 1)[k]);
                        }
                    }
                },
                Err(e) => {
                    assert(!has_app(self.store(), strs(ids@)[i as int]));
                    return Err(e);
                },
            }
            i = i + 1;
        }
        assert(strs(ids@).take(i as int) =~= strs(ids@));
        Ok(apps)
    }

    /// Applies a trash event whose items are apps, in one step: nothing
    /// changes unless it all succeeds. `NewTrash` and `Putback` publish the
    /// workspaces of the apps; `Delete` deletes the apps and then publishes
    /// their workspaces. The result is what the event's acknowledgement carries.
    pub fn handle_trash_event(&mut self, event: &TrashEvent) -> (r: Result<(), FlowyError>)
        requires
            old(self).wf(),
        ensures
            final(self).wf(),
            trash_outcome(*old(self), *final(self), is_delete(*event), item_ids(event_items(*event)), r),
    {
        let (items, delete) = match event {
            TrashEvent::NewTrash(v) => (v, false),
            TrashEvent::Putback(v) => (v, false),
            TrashEvent::Delete(v) => (v, true),
        };
        assert(items@ == event_items(*event) && delete == is_delete(*event));
        let ghost s = self.store();
        let ghost all = item_ids(items@);
        let mut ids: Vec<String> = Vec::new();
        let mut i: usize = 0;
        while i < items.len()
            invariant
                0 <= i <= items.len(),
                all == item_ids(items@),
                strs(ids@) == all.take(i as int),
            decreases items.len() - i,
        {
            let ghost prev = ids@;
            ids.push(items[i].id.clone());
            assert(strs(ids@) =~= strs(prev).push(items@[i as int].id@));
            assert(strs(ids@) =~= all.take(i + 1));
            i = i + 1;
        }
        assert(all.take(i as int) =~= all);
        let mut captured: Vec<String> = Vec::new();
        let mut k: usize = 0;
        while k < ids.len()
            invariant
                0 <= k <= ids.len(),
                strs(ids@) == all,
                all == item_ids(event_items(*event)),
                delete == is_delete(*event),
                self.store() == s,
                self.wf(),
                all_present(s, all.take(k as int)),
                strs(captured@) == workspaces_of(s, all.take(k as int)),
                delete ==> forall|j: int| 0 <= j < k ==> !#[trigger] all.take(j).contains(all[j]),
            decreases ids.len() - k,
        {
            let app = match self.persistence.read_app(&ids[k]) {
                Ok(a) => a,
                Err(e) => {
                    assert(!has_app(s, all[k as int]));
                    return Err(e);
                },
            };
            if delete && contains_in_prefix(&ids, k, &ids[k]) {
                assert(!all.no_duplicates()) by {
                    let j = choose|j: int| 0 <= j < k && #[trigger] all.take(k as int)[j] == all[k as int];
                    assert(all[j] == all[k as int]);
                }
                return Err(FlowyError::RecordNotFound);
            }
            let ghost prev = captured@;
            assert(ids@[k as int]@ == all[k as int]);
            captured.push(app.workspace_id);
            assert(strs(captured@) =~= strs(prev).push(app@.workspace_id));
            assert(strs(captured@) =~= workspaces_of(s, all.take(k + 1)));
            assert forall|j: int| 0 <= j < k + 1 implies has_app(s, #[trigger] all.take(k + 1)[j]) by {
                if j < k {
                    assert(all.take(k as int)[j] == all.take(k + 1)[j]);
                }
            }
            k = k + 1;
        }
        assert(all.take(k as int) =~= all);
        if delete {
            assert(all.no_duplicates()) by {
                assert forall|a: int, b: int| 0 <= a < all.len() && 0 <= b < all.len() && a != b
                    implies all[a] != all[b] by {
                    if a < b {
                        assert(!all.take(b).contains(all[b]));
                        assert(all.take(b)[a] == all[a]);
                    } else {
                        assert(!all.take(a).contains(all[a]));
                        assert(all.take(a)[b] == all[b]);
                    }
                }
            }
            let mut d: usize = 0;
            while d < ids.len()
                invariant
                    0 <= d <= ids.len(),
                    strs(ids@) == all,
                    all == item_ids(event_items(*event)),
                    delete == is_delete(*event),
                    all.no_duplicates(),
                    self.wf(),
                    self.store() == delete_all(s, all.take(d as int)),
                    forall|j: int| d <= j < all.len() ==> has_app(self.store(), #[trigger] all[j]),
                    self.notes() == old(self).notes(),
                    self.trash() == old(self).trash(),
                    self.listening() == old(self).listening(),
                decreases ids.len() - d,
            {
                let ghost cur = self.store();
                assert(ids@[d as int]@ == all[d as int]);
                assert(has_app(cur, all[d as int]));
                match self.persistence.delete_app(&ids[d]) {
                    Ok(()) => {},
                    Err(e) => return Err(e),
                }
                proof {
                    let p = first_index(cur, all[d as int]);
                    assert(all.take(d + 1).drop_last() =~= all.take(d as int));
                    assert(all.take(d + 1).last() == all[d as int]);
                    assert forall|j: int| d + 1 <= j < all.len() implies has_app(
                        self.store(),
                        #[trigger] all[j],
                    ) by {
                        assert(has_app(cur, all[j]));
                        let q = choose|q: int| 0 <= q < cur.len() && #[trigger] cur[q].id == all[j];
                        assert(all[j] != all[d as int]);
                        if q < p {
                            assert(self.store()[q] == cur[q]);
                        } else {
                            assert(q != p);
                            assert(self.store()[q - 1] == cur[q]);
                        }
                    }
                }
                d = d + 1;
            }
            assert(all.take(d as int) =~= all);
        }
        let ghost s1 = self.store();
        let ws = dedup_strings(&captured);
        let mut n: usize = 0;
        while n < ws.len()
            invariant
                0 <= n <= ws.len(),
                self.store() == s1,
                self.wf(),
                self.trash() == old(self).trash(),
                self.listening() == old(self).listening(),
                self.notes() == old(self).notes() + apps_notes(
                    strs(ws@).take(n as int),
                    s1,
                    old(self).trash(),
                ),
            decreases ws.len() - n,
        {
            let _ = notify_apps_changed(
                &ws[n],
                &self.trash_controller,
                &self.persistence,
                &mut self.notifications,
            );
            assert(self.notes() =~= old(self).notes() + apps_notes(
                strs(ws@).take(n + 1),
                s1,
                old(self).trash(),
            ));
            n = n + 1;
        }
        assert(strs(ws@).take(n as int) =~= strs(ws@));
        Ok(())
    }

    /// Receives a trash event: its app items, if it has any, are handled,
    /// and the result is the one acknowledgement that the event gets.
    /// Events without app items are not this controller's, and get none here.
    pub fn receive_trash_event(&mut self, event: &TrashEvent) -> (r: Option<Result<(), FlowyError>>)
        requires
            old(self).wf(),
        ensures
            final(self).wf(),
            items_of(event_items(*event), TrashType::TrashApp).len() == 0 <==> r is None,
            r is None ==> final(self).same_state(old(self)),
            r matches Some(res) ==> trash_outcome(
                *old(self),
                *final(self),
                is_delete(*event),
                item_ids(items_of(event_items(*event), TrashType::TrashApp)),
                res,
            ),
    {
        match event.select(TrashType::TrashApp) {
            Some(e) => Some(self.handle_trash_event(&e)),
            None => None,
        }
    }

    /// Hands out the published notifications, oldest first, and empties the outbox.
    pub fn take_notifications(&mut self) -> (r: Vec<Notification>)
        ensures
            note_views(r@) == old(self).notes(),
            final(self).notes() == Seq::<NoteSpec>::empty(),
            final(self).store() == old(self).store(),
            final(self).trash() == old(self).trash(),
            final(self).listening() == old(self).listening(),
    {
        let mut r: Vec<Notification> = Vec::new();
        std::mem::swap(&mut self.notifications, &mut r);
        assert(self.notes() =~= Seq::<NoteSpec>::empty());
        r
    }
}

} // verus!
