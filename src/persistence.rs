use vstd::prelude::*;
use crate::entities::{AppRevision, AppSpec, AppChangeset, FlowyError, views, apply_changeset};

verus! {

/// Some row of `s` has the id.
pub open spec fn has_app(s: Seq<AppSpec>, id: Seq<char>) -> bool {
    exists|i: int| 0 <= i < s.len() && #[trigger] s[i].id == id
}

/// `i` is the first row of `s` with the id.
pub open spec fn is_first(s: Seq<AppSpec>, id: Seq<char>, i: int) -> bool {
    &&& 0 <= i < s.len()
    &&& s[i].id == id
    &&& forall|j: int| 0 <= j < i ==> #[trigger] s[j].id != id
}

pub open spec fn first_index(s: Seq<AppSpec>, id: Seq<char>) -> int {
    choose|i: int| is_first(s, id, i)
}

/// The row that a lookup of the id finds.
pub open spec fn app_of(s: Seq<AppSpec>, id: Seq<char>) -> AppSpec {
    s[first_index(s, id)]
}

/// The apps of workspace `w`, in their order.
pub open spec fn apps_in(s: Seq<AppSpec>, w: Seq<char>) -> Seq<AppSpec>
    decreases s.len(),
{
    if s.len() == 0 {
        Seq::empty()
    } else {
        let r = apps_in(s.drop_last(), w);
        if s.last().workspace_id == w {
            r.push(s.last())
        } else {
            r
        }
    }
}

/// The apps of every other workspace than `w`, in their order.
pub open spec fn apps_not_in(s: Seq<AppSpec>, w: Seq<char>) -> Seq<AppSpec>
    decreases s.len(),
{
    if s.len() == 0 {
        Seq::empty()
    } else {
        let r = apps_not_in(s.drop_last(), w);
        if s.last().workspace_id != w {
            r.push(s.last())
        } else {
            r
        }
    }
}

/// The apps of `l` whose ids are not in the trash, in their order.
pub open spec fn untrashed(l: Seq<AppSpec>, trash: Set<Seq<char>>) -> Seq<AppSpec>
    decreases l.len(),
{
    if l.len() == 0 {
        Seq::empty()
    } else {
        let r = untrashed(l.drop_last(), trash);
        if !trash.contains(l.last().id) {
            r.push(l.last())
        } else {
            r
        }
    }
}

/// The apps of workspace `w` whose ids are not in the trash, in their order.
pub open spec fn visible_in(s: Seq<AppSpec>, w: Seq<char>, trash: Set<Seq<char>>) -> Seq<AppSpec> {
    untrashed(apps_in(s, w), trash)
}

/// The ids of the rows, in order.
pub open spec fn ids(s: Seq<AppSpec>) -> Seq<Seq<char>> {
    s.map_values(|a: AppSpec| a.id)
}

/// The list with its element at `from` taken out and put back at `to`.
pub open spec fn moved(l: Seq<AppSpec>, from: int, to: int) -> Seq<AppSpec> {
    l.remove(from).insert(to, l[from])
}

/// The store: every app row, in order. The order of the rows of one
/// workspace is their position there.
pub struct FolderPersistence {
    apps: Vec<AppRevision>,
}

impl FolderPersistence {
    /// No two rows share an id.
    pub open spec fn wf(&self) -> bool {
        ids(self@).no_duplicates()
    }
}

impl View for FolderPersistence {
    type V = Seq<AppSpec>;

    closed spec fn view(&self) -> Seq<AppSpec> {
        views(self.apps@)
    }
}

pub proof fn lemma_first_unique(s: Seq<AppSpec>, id: Seq<char>, i: int)
    requires
        is_first(s, id, i),
    ensures
        first_index(s, id) == i,
        app_of(s, id) == s[i],
        has_app(s, id),
{
    let k = first_index(s, id);
    assert(is_first(s, id, k));
    if k < i {
        assert(s[k].id != id);
    } else if k > i {
        assert(s[i].id != id);
    }
}

/// Where some row has the id, a first one does.
pub proof fn lemma_first_exists(s: Seq<AppSpec>, id: Seq<char>)
    requires
        has_app(s, id),
    ensures
        is_first(s, id, first_index(s, id)),
    decreases s.len(),
{
    let p = s.drop_last();
    if has_app(p, id) {
        lemma_first_exists(p, id);
        let i = first_index(p, id);
        assert forall|j: int| 0 <= j < i implies #[trigger] s[j].id != id by {
            assert(p[j] == s[j]);
        }
        assert(is_first(s, id, i));
    } else {
        assert forall|j: int| 0 <= j < s.len() - 1 implies #[trigger] s[j].id != id by {
            assert(p[j] == s[j]);
        }
        assert(is_first(s, id, s.len() - 1));
    }
}

proof fn lemma_apps_in_concat(a: Seq<AppSpec>, b: Seq<AppSpec>, w: Seq<char>)
    ensures
        apps_in(a + b, w) == apps_in(a, w) + apps_in(b, w),
        apps_not_in(a + b, w) == apps_not_in(a, w) + apps_not_in(b, w),
    decreases b.len(),
{
    if b.len() == 0 {
        assert(a + b =~= a);
        assert(apps_in(a, w) + apps_in(b, w) =~= apps_in(a, w));
        assert(apps_not_in(a, w) + apps_not_in(b, w) =~= apps_not_in(a, w));
    } else {
        lemma_apps_in_concat(a, b.drop_last(), w);
        assert((a + b).drop_last() =~= a + b.drop_last());
        assert((a + b).last() == b.last());
        assert(apps_in(a, w) + apps_in(b.drop_last(), w).push(b.last())
            =~= (apps_in(a, w) + apps_in(b.drop_last(), w)).push(b.last()));
        assert(apps_not_in(a, w) + apps_not_in(b.drop_last(), w).push(b.last())
            =~= (apps_not_in(a, w) + apps_not_in(b.drop_last(), w)).push(b.last()));
    }
}

proof fn lemma_apps_not_in(s: Seq<AppSpec>, w: Seq<char>, x: Seq<char>)
    ensures
        apps_in(apps_not_in(s, w), w) == Seq::<AppSpec>::empty(),
        x != w ==> apps_in(apps_not_in(s, w), x) == apps_in(s, x),
    decreases s.len(),
{
    if s.len() > 0 {
        lemma_apps_not_in(s.drop_last(), w, x);
        let r = apps_not_in(s.drop_last(), w);
        assert(r.push(s.last()).drop_last() =~= r);
    }
}

proof fn lemma_apps_in_all(l: Seq<AppSpec>, w: Seq<char>, x: Seq<char>)
    requires
        forall|i: int| 0 <= i < l.len() ==> #[trigger] l[i].workspace_id == w,
    ensures
        apps_in(l, w) == l,
        x != w ==> apps_in(l, x) == Seq::<AppSpec>::empty(),
    decreases l.len(),
{
    if l.len() > 0 {
        lemma_apps_in_all(l.drop_last(), w, x);
        assert(l.drop_last().push(l.last()) =~= l);
    }
}

proof fn lemma_apps_in_ws(s: Seq<AppSpec>, w: Seq<char>)
    ensures
        forall|i: int| 0 <= i < apps_in(s, w).len() ==> #[trigger] apps_in(s, w)[i].workspace_id == w,
    decreases s.len(),
{
    if s.len() > 0 {
        lemma_apps_in_ws(s.drop_last(), w);
        let r = apps_in(s.drop_last(), w);
        assert forall|i: int| 0 <= i < apps_in(s, w).len() implies #[trigger] apps_in(s, w)[i].workspace_id
            == w by {
            if i < r.len() {
                assert(apps_in(s, w)[i] == r[i]);
            }
        }
    }
}

proof fn lemma_same_multiset_unique(a: Seq<Seq<char>>, b: Seq<Seq<char>>)
    requires
        a.no_duplicates(),
        a.to_multiset() == b.to_multiset(),
    ensures
        b.no_duplicates(),
{
    a.lemma_multiset_has_no_duplicates();
    b.lemma_multiset_has_no_duplicates_conv();
}

proof fn lemma_split_multiset(s: Seq<AppSpec>, w: Seq<char>)
    ensures
        ids(apps_not_in(s, w)).to_multiset().add(ids(apps_in(s, w)).to_multiset()) == ids(s).to_multiset(),
    decreases s.len(),
{
    broadcast use vstd::seq_lib::group_to_multiset_ensures;

    if s.len() == 0 {
        assert(ids(s) =~= Seq::<Seq<char>>::empty());
        assert(ids(apps_in(s, w)) =~= Seq::<Seq<char>>::empty());
        assert(ids(apps_not_in(s, w)) =~= Seq::<Seq<char>>::empty());
        assert(Seq::<Seq<char>>::empty().to_multiset().add(Seq::<Seq<char>>::empty().to_multiset())
            =~= Seq::<Seq<char>>::empty().to_multiset());
    } else {
        lemma_split_multiset(s.drop_last(), w);
        let p = s.drop_last();
        assert(ids(s) =~= ids(p).push(s.last().id));
        assert(ids(apps_in(p, w).push(s.last())) =~= ids(apps_in(p, w)).push(s.last().id));
        assert(ids(apps_not_in(p, w).push(s.last())) =~= ids(apps_not_in(p, w)).push(s.last().id));
        let a = ids(apps_not_in(p, w)).to_multiset();
        let b = ids(apps_in(p, w)).to_multiset();
        assert(a.insert(s.last().id).add(b) =~= a.add(b).insert(s.last().id));
        assert(a.add(b.insert(s.last().id)) =~= a.add(b).insert(s.last().id));
    }
}

impl FolderPersistence {
    /// An empty store.
    pub fn new() -> (r: FolderPersistence)
        ensures
            r@ == Seq::<AppSpec>::empty(),
            r.wf(),
    {
        let r = FolderPersistence { apps: Vec::new() };
        assert(r@ =~= Seq::<AppSpec>::empty());
        assert(ids(r@) =~= Seq::<Seq<char>>::empty());
        r
    }

    /// The index of the first row with the id, if there is one.
    fn find(&self, id: &String) -> (r: Option<usize>)
        ensures
            match r {
                Some(i) => is_first(self@, id@, i as int),
                None => !has_app(self@, id@),
            },
    {
        let mut i: usize = 0;
        while i < self.apps.len()
            invariant
                0 <= i <= self.apps.len(),
                self@ == views(self.apps@),
                forall|j: int| 0 <= j < i ==> #[trigger] self@[j].id != id@,
            decreases self.apps.len() - i,
        {
            if self.apps[i].id == *id {
                return Some(i);
            }
            i = i + 1;
        }
        None
    }

    /// Inserts a row minted elsewhere; an id that is already stored is refused.
    pub fn create_app(&mut self, app: AppRevision) -> (r: Result<(), FlowyError>)
        requires
            old(self).wf(),
        ensures
            final(self).wf(),
            has_app(old(self)@, app@.id) ==> r == Err::<(), FlowyError>(FlowyError::Internal)
                && final(self)@ == old(self)@,
            !has_app(old(self)@, app@.id) ==> r is Ok && final(self)@ == old(self)@.push(app@),
    {
        match self.find(&app.id) {
            Some(_) => Err(FlowyError::Internal),
            None => {
                let ghost v = app@;
                self.apps.push(app);
                assert(self@ =~= old(self)@.push(v));
                assert(ids(self@) =~= ids(old(self)@).push(v.id));
                assert forall|k: int| 0 <= k < old(self)@.len() implies #[trigger] ids(old(self)@)[k] != v.id by {
                    assert(old(self)@[k].id != v.id);
                }
                Ok(())
            },
        }
    }

    /// The row with the id, or `RecordNotFound`.
    pub fn read_app(&self, id: &String) -> (r: Result<AppRevision, FlowyError>)
        ensures
            match r {
                Ok(a) => has_app(self@, id@) && is_first(self@, id@, first_index(self@, id@)) && a@
                    == app_of(self@, id@),
                Err(e) => !has_app(self@, id@) && e == FlowyError::RecordNotFound,
            },
    {
        match self.find(id) {
            Some(i) => {
                proof {
                    lemma_first_unique(self@, id@, i as int);
                }
                Ok(self.apps[i].duplicate())
            },
            None => Err(FlowyError::RecordNotFound),
        }
    }

    /// Applies the changeset to the row with its id.
    pub fn update_app(&mut self, changeset: &AppChangeset) -> (r: Result<(), FlowyError>)
        requires
            old(self).wf(),
        ensures
            final(self).wf(),
            !has_app(old(self)@, changeset@.id) ==> r == Err::<(), FlowyError>(
                FlowyError::RecordNotFound,
            ) && final(self)@ == old(self)@,
            has_app(old(self)@, changeset@.id) ==> r is Ok && is_first(
                old(self)@,
                changeset@.id,
                first_index(old(self)@, changeset@.id),
            ) && final(self)@ == old(self)@.update(
                first_index(old(self)@, changeset@.id),
                apply_changeset(app_of(old(self)@, changeset@.id), changeset@),
            ),
    {
        match self.find(&changeset.id) {
            Some(i) => {
                proof {
                    lemma_first_unique(self@, changeset@.id, i as int);
                }
                let mut row = self.apps[i].duplicate();
                match &changeset.name {
                    Some(n) => row.name = n.clone(),
                    None => {},
                }
                match &changeset.desc {
                    Some(d) => row.desc = d.clone(),
                    None => {},
                }
                match &changeset.color_style {
                    Some(c) => row.color_style = c.clone(),
                    None => {},
                }
                let ghost v = row@;
                self.apps.set(i, row);
                assert(v == apply_changeset(app_of(old(self)@, changeset@.id), changeset@));
                assert(self@ =~= old(self)@.update(i as int, v));
                assert(ids(self@) =~= ids(old(self)@));
                Ok(())
            },
            None => Err(FlowyError::RecordNotFound),
        }
    }

    /// Removes the row with the id.
    pub fn delete_app(&mut self, id: &String) -> (r: Result<(), FlowyError>)
        requires
            old(self).wf(),
        ensures
            final(self).wf(),
            !has_app(old(self)@, id@) ==> r == Err::<(), FlowyError>(FlowyError::RecordNotFound)
                && final(self)@ == old(self)@,
            has_app(old(self)@, id@) ==> r is Ok && is_first(old(self)@, id@, first_index(old(self)@, id@))
                && final(self)@ == old(self)@.remove(first_index(old(self)@, id@)),
    {
        match self.find(id) {
            Some(i) => {
                proof {
                    lemma_first_unique(self@, id@, i as int);
                }
                self.apps.remove(i);
                assert(self@ =~= old(self)@.remove(i as int));
                assert(ids(self@) =~= ids(old(self)@).remove(i as int));
                let ghost o = ids(old(self)@);
                assert forall|a: int, b: int| 0 <= a < ids(self@).len() && 0 <= b < ids(self@).len() && a != b
                    implies ids(self@)[a] != ids(self@)[b] by {
                    let a2 = if a < i { a } else { a + 1 };
                    let b2 = if b < i { b } else { b + 1 };
                    assert(ids(self@)[a] == o[a2]);
                    assert(ids(self@)[b] == o[b2]);
                }
                Ok(())
            },
            None => Err(FlowyError::RecordNotFound),
        }
    }

    /// Moves the app at position `from` among the apps of the workspace of
    /// `app_id` to position `to`; the other workspaces keep their lists.
    pub fn move_app(&mut self, app_id: &String, from: usize, to: usize) -> (r: Result<(), FlowyError>)
        requires
            old(self).wf(),
        ensures
            final(self).wf(),
            ({
                let w = app_of(old(self)@, app_id@).workspace_id;
                let l = apps_in(old(self)@, w);
                &&& !has_app(old(self)@, app_id@) ==> r == Err::<(), FlowyError>(
                    FlowyError::RecordNotFound,
                ) && final(self)@ == old(self)@
                &&& has_app(old(self)@, app_id@) && !(from < l.len() && to < l.len()) ==> r
                    == Err::<(), FlowyError>(FlowyError::Internal) && final(self)@ == old(self)@
                &&& has_app(old(self)@, app_id@) && from < l.len() && to < l.len() ==> r is Ok
                    && apps_in(final(self)@, w) == moved(l, from as int, to as int)
                    && forall|x: Seq<char>| x != w ==> #[trigger] apps_in(final(self)@, x) == apps_in(old(self)@, x)
            }),
    {
        let idx = match self.find(app_id) {
            Some(i) => i,
            None => return Err(FlowyError::RecordNotFound),
        };
        proof {
            lemma_first_unique(self@, app_id@, idx as int);
        }
        let w = self.apps[idx].workspace_id.clone();
        let mut ws: Vec<AppRevision> = Vec::new();
        let mut rest: Vec<AppRevision> = Vec::new();
        let mut i: usize = 0;
        while i < self.apps.len()
            invariant
                0 <= i <= self.apps.len(),
                self@ == views(self.apps@),
                views(ws@) == apps_in(self@.take(i as int), w@),
                views(rest@) == apps_not_in(self@.take(i as int), w@),
            decreases self.apps.len() - i,
        {
            assert(self@.take(i + 1).drop_last() =~= self@.take(i as int));
            if self.apps[i].workspace_id == w {
                ws.push(self.apps[i].duplicate());
            } else {
                rest.push(self.apps[i].duplicate());
            }
            assert(views(ws@) =~= apps_in(self@.take(i + 1), w@));
            assert(views(rest@) =~= apps_not_in(self@.take(i + 1), w@));
            i = i + 1;
        }
        assert(self@.take(i as int) =~= self@);
        if from >= ws.len() || to >= ws.len() {
            return Err(FlowyError::Internal);
        }
        let ghost l = views(ws@);
        let x = ws.remove(from);
        ws.insert(to, x);
        assert(views(ws@) =~= moved(l, from as int, to as int));
        let ghost rv = views(rest@);
        let ghost mv = views(ws@);
        rest.append(&mut ws);
        self.apps = rest;
        proof {
            let s0 = old(self)@;
            assert(self@ =~= rv + mv);
            lemma_apps_in_ws(s0, w@);
            assert forall|k: int| 0 <= k < mv.len() implies #[trigger] mv[k].workspace_id == w@ by {
                if k < to {
                    if k < from {
                        assert(mv[k] == l[k]);
                    } else {
                        assert(mv[k] == l[k + 1]);
                    }
                } else if k > to {
                    if k <= from {
                        assert(mv[k] == l[k - 1]);
                    } else {
                        assert(mv[k] == l[k]);
                    }
                }
            }
            lemma_apps_in_concat(rv, mv, w@);
            lemma_apps_not_in(s0, w@, w@);
            lemma_apps_in_all(mv, w@, w@);
            assert(apps_in(self@, w@) =~= mv);
            assert forall|x: Seq<char>| x != w@ implies #[trigger] apps_in(self@, x) == apps_in(s0, x) by {
                lemma_apps_in_concat(rv, mv, x);
                lemma_apps_not_in(s0, w@, x);
                lemma_apps_in_all(mv, w@, x);
                assert(apps_in(rv, x) + Seq::<AppSpec>::empty() =~= apps_in(rv, x));
            }
            lemma_split_multiset(s0, w@);
            assert(ids(self@) =~= ids(rv) + ids(mv));
            vstd::seq_lib::lemma_multiset_commutative(ids(rv), ids(mv));
            let li = ids(l);
            assert(ids(mv) =~= li.remove(from as int).insert(to as int, li[from as int]));
            vstd::seq_lib::to_multiset_remove(li, from as int);
            vstd::seq_lib::to_multiset_insert(li.remove(from as int), to as int, li[from as int]);
            assert(li.to_multiset().remove(li[from as int]).insert(li[from as int]) =~= li.to_multiset()) by {
                broadcast use vstd::seq_lib::group_to_multiset_ensures;
            }
            lemma_same_multiset_unique(ids(s0), ids(self@));
        }
        Ok(())
    }

    /// The rows of the workspace, in their order.
    pub fn read_workspace_apps(&self, workspace_id: &String) -> (r: Vec<AppRevision>)
        ensures
            views(r@) == apps_in(self@, workspace_id@),
    {
        let mut out: Vec<AppRevision> = Vec::new();
        let mut i: usize = 0;
        while i < self.apps.len()
            invariant
                0 <= i <= self.apps.len(),
                self@ == views(self.apps@),
                views(out@) == apps_in(self@.take(i as int), workspace_id@),
            decreases self.apps.len() - i,
        {
            assert(self@.take(i + 1).drop_last() =~= self@.take(i as int));
            if self.apps[i].workspace_id == *workspace_id {
                out.push(self.apps[i].duplicate());
            }
            assert(views(out@) =~= apps_in(self@.take(i + 1), workspace_id@));
            i = i + 1;
        }
        assert(self@.take(i as int) =~= self@);
        out
    }
}

} // verus!
