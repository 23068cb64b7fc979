use vstd::prelude::*;
use crate::controller::{apps_note, apps_notes, dedup, workspaces_of};
use crate::entities::{AppSpec, ChangesetSpec, FolderNotification, NoteSpec, apply_changeset};
use crate::persistence::{
    app_of, first_index, has_app, is_first, lemma_first_exists, lemma_first_unique, moved,
};

verus! {

/// Moving an app within its workspace is a permutation: the workspace keeps
/// the same apps, as many of each, and its length.
pub proof fn lemma_move_is_permutation(l: Seq<AppSpec>, from: int, to: int)
    requires
        0 <= from < l.len(),
        0 <= to < l.len(),
    ensures
        moved(l, from, to).len() == l.len(),
        moved(l, from, to).to_multiset() == l.to_multiset(),
{
    broadcast use vstd::seq_lib::group_to_multiset_ensures;

    let r = l.remove(from);
    vstd::seq_lib::to_multiset_remove(l, from);
    vstd::seq_lib::to_multiset_insert(r, to, l[from]);
    assert(l.to_multiset().remove(l[from]).insert(l[from]) =~= l.to_multiset());
}

/// Moving an app from a position to the same position leaves the order of
/// its workspace unchanged.
pub proof fn lemma_move_to_same_position(l: Seq<AppSpec>, i: int)
    requires
        0 <= i < l.len(),
    ensures
        moved(l, i, i) == l,
{
    assert(moved(l, i, i) =~= l);
}

/// After an app whose id no row shares is added, a lookup of its id finds
/// exactly that app.
pub proof fn lemma_create_then_read(s: Seq<AppSpec>, app: AppSpec)
    requires
        !has_app(s, app.id),
    ensures
        has_app(s.push(app), app.id),
        app_of(s.push(app), app.id) == app,
{
    let t = s.push(app);
    assert forall|j: int| 0 <= j < s.len() implies #[trigger] t[j].id != app.id by {
        assert(t[j] == s[j]);
    }
    assert(is_first(t, app.id, s.len() as int));
    lemma_first_unique(t, app.id, s.len() as int);
}

/// After an update of a stored app, a lookup of its id finds the updated row:
/// each field that the update sets (its name among them) has the new value.
pub proof fn lemma_update_then_read(s: Seq<AppSpec>, c: ChangesetSpec)
    requires
        has_app(s, c.id),
    ensures
        ({
            let t = s.update(first_index(s, c.id), apply_changeset(app_of(s, c.id), c));
            &&& has_app(t, c.id)
            &&& app_of(t, c.id) == apply_changeset(app_of(s, c.id), c)
            &&& c.name matches Some(n) ==> app_of(t, c.id).name == n
        }),
{
    lemma_first_exists(s, c.id);
    let p = first_index(s, c.id);
    let v = apply_changeset(app_of(s, c.id), c);
    let t = s.update(p, v);
    assert forall|j: int| 0 <= j < p implies #[trigger] t[j].id != c.id by {
        assert(t[j] == s[j]);
    }
    assert(is_first(t, c.id, p));
    lemma_first_unique(t, c.id, p);
}

/// The most recent workspace notification for `w` among `notes`.
pub open spec fn latest_apps_note(notes: Seq<NoteSpec>, w: Seq<char>) -> Option<NoteSpec>
    decreases notes.len(),
{
    if notes.len() == 0 {
        None
    } else if notes.last().ty == FolderNotification::DidUpdateWorkspaceApps && notes.last().key == w {
        Some(notes.last())
    } else {
        latest_apps_note(notes.drop_last(), w)
    }
}

/// After the workspaces `ws` are published from a store, the most recent
/// workspace notification for each of them carries the visible apps of that
/// workspace in that store, whatever was published before.
pub proof fn lemma_latest_after_publish(
    notes: Seq<NoteSpec>,
    ws: Seq<Seq<char>>,
    s: Seq<AppSpec>,
    trash: Set<Seq<char>>,
    w: Seq<char>,
)
    requires
        ws.contains(w),
    ensures
        latest_apps_note(notes + apps_notes(ws, s, trash), w) == Some(apps_note(w, s, trash)),
    decreases ws.len(),
{
    let n = notes + apps_notes(ws, s, trash);
    assert(n.last() == apps_note(ws.last(), s, trash));
    if ws.last() != w {
        let p = ws.drop_last();
        assert(n.drop_last() =~= notes + apps_notes(p, s, trash));
        let k = choose|k: int| 0 <= k < ws.len() && ws[k] == w;
        assert(p[k] == w);
        lemma_latest_after_publish(notes, p, s, trash, w);
    }
}

/// Publishing one workspace is publishing the list that holds only it.
pub proof fn lemma_latest_after_one_publish(
    notes: Seq<NoteSpec>,
    s: Seq<AppSpec>,
    trash: Set<Seq<char>>,
    w: Seq<char>,
)
    ensures
        latest_apps_note(notes.push(apps_note(w, s, trash)), w) == Some(apps_note(w, s, trash)),
{
}

/// A workspace that occurs in a list occurs once among its distinct elements.
pub proof fn lemma_dedup_contains(l: Seq<Seq<char>>, w: Seq<char>)
    requires
        l.contains(w),
    ensures
        dedup(l).contains(w),
    decreases l.len(),
{
    let p = l.drop_last();
    if l.last() != w {
        let k = choose|k: int| 0 <= k < l.len() && l[k] == w;
        assert(p[k] == w);
        lemma_dedup_contains(p, w);
        let d = dedup(p);
        let j = choose|j: int| 0 <= j < d.len() && d[j] == w;
        if !d.contains(l.last()) {
            assert(d.push(l.last())[j] == w);
        }
    } else {
        let d = dedup(p);
        if !d.contains(w) {
            assert(d.push(w)[d.len() as int] == w);
        }
    }
}

/// After a trash event on the apps with ids `ids` of store `s` is handled,
/// leaving store `s2`, the most recent workspace notification for the
/// workspace of each of those apps carries the visible apps of that
/// workspace in `s2`.
pub proof fn lemma_trash_event_publishes(
    notes: Seq<NoteSpec>,
    s: Seq<AppSpec>,
    ids: Seq<Seq<char>>,
    s2: Seq<AppSpec>,
    trash: Set<Seq<char>>,
    k: int,
)
    requires
        0 <= k < ids.len(),
    ensures
        ({
            let w = app_of(s, ids[k]).workspace_id;
            latest_apps_note(notes + apps_notes(dedup(workspaces_of(s, ids)), s2, trash), w)
                == Some(apps_note(w, s2, trash))
        }),
{
    let w = app_of(s, ids[k]).workspace_id;
    assert(workspaces_of(s, ids)[k] == w);
    lemma_dedup_contains(workspaces_of(s, ids), w);
    lemma_latest_after_publish(notes, dedup(workspaces_of(s, ids)), s2, trash, w);
}

} // verus!
