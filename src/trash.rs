use vstd::prelude::*;
use crate::entities::{TrashEvent, TrashItem, TrashType};

verus! {

/// The models of a sequence of strings.
pub open spec fn strs(v: Seq<String>) -> Seq<Seq<char>> {
    v.map_values(|s: String| s@)
}

/// `s` occurs among the first `n` strings of `v`.
pub fn contains_in_prefix(v: &Vec<String>, n: usize, s: &String) -> (r: bool)
    requires
        n <= v@.len(),
    ensures
        r == strs(v@).take(n as int).contains(s@),
{
    let mut i: usize = 0;
    while i < n
        invariant
            0 <= i <= n <= v@.len(),
            forall|j: int| 0 <= j < i ==> #[trigger] strs(v@)[j] != s@,
        decreases n - i,
    {
        if v[i] == *s {
            assert(strs(v@).take(n as int)[i as int] == s@);
            return true;
        }
        i = i + 1;
    }
    assert forall|j: int| 0 <= j < n implies #[trigger] strs(v@).take(n as int)[j] != s@ by {
        assert(strs(v@)[j] != s@);
    }
    false
}

/// The set of trashed entity ids, held by the trash subsystem.
pub struct TrashController {
    trash_ids: Vec<String>,
}

impl View for TrashController {
    type V = Set<Seq<char>>;

    closed spec fn view(&self) -> Set<Seq<char>> {
        strs(self.trash_ids@).to_set()
    }
}

impl TrashController {
    /// A trash that holds these ids.
    pub fn new(trash_ids: Vec<String>) -> (r: TrashController)
        ensures
            r@ == strs(trash_ids@).to_set(),
    {
        TrashController { trash_ids }
    }

    /// Replaces the set of trashed ids.
    pub fn set_trash_ids(&mut self, trash_ids: Vec<String>)
        ensures
            final(self)@ == strs(trash_ids@).to_set(),
    {
        self.trash_ids = trash_ids;
    }

    /// Whether the id is in the trash.
    pub fn contains(&self, id: &String) -> (r: bool)
        ensures
            r == self@.contains(id@),
    {
        let n = self.trash_ids.len();
        let r = contains_in_prefix(&self.trash_ids, n, id);
        assert(strs(self.trash_ids@).take(n as int) =~= strs(self.trash_ids@));
        r
    }
}

/// The items of the given kind, in their order.
pub open spec fn items_of(items: Seq<TrashItem>, ty: TrashType) -> Seq<TrashItem>
    decreases items.len(),
{
    if items.len() == 0 {
        Seq::empty()
    } else {
        let r = items_of(items.drop_last(), ty);
        if items.last().ty == ty {
            r.push(items.last())
        } else {
            r
        }
    }
}

/// The ids of the items.
pub open spec fn item_ids(items: Seq<TrashItem>) -> Seq<Seq<char>> {
    items.map_values(|t: TrashItem| t.id@)
}

pub open spec fn event_items(e: TrashEvent) -> Seq<TrashItem> {
    match e {
        TrashEvent::NewTrash(v) => v@,
        TrashEvent::Putback(v) => v@,
        TrashEvent::Delete(v) => v@,
    }
}

/// The same event, with the items of another variant.
pub open spec fn same_kind(a: TrashEvent, b: TrashEvent) -> bool {
    match (a, b) {
        (TrashEvent::NewTrash(_), TrashEvent::NewTrash(_)) => true,
        (TrashEvent::Putback(_), TrashEvent::Putback(_)) => true,
        (TrashEvent::Delete(_), TrashEvent::Delete(_)) => true,
        _ => false,
    }
}

/// The items of the given kind, in their order.
fn select_items(items: &Vec<TrashItem>, ty: TrashType) -> (r: Vec<TrashItem>)
    ensures
        item_ids(r@) == item_ids(items_of(items@, ty)),
        forall|i: int| 0 <= i < r@.len() ==> #[trigger] r@[i].ty == ty,
        r@.len() == items_of(items@, ty).len(),
{
    let mut out: Vec<TrashItem> = Vec::new();
    let mut i: usize = 0;
    while i < items.len()
        invariant
            0 <= i <= items.len(),
            item_ids(out@) == item_ids(items_of(items@.take(i as int), ty)),
            out@.len() == items_of(items@.take(i as int), ty).len(),
            forall|j: int| 0 <= j < out@.len() ==> #[trigger] out@[j].ty == ty,
        decreases items.len() - i,
    {
        assert(items@.take(i + 1).drop_last() =~= items@.take(i as int));
        let ghost prev = out@;
        let ghost l = items_of(items@.take(i as int), ty);
        if items[i].ty == ty {
            out.push(TrashItem { id: items[i].id.clone(), ty: items[i].ty });
            assert(items_of(items@.take(i + 1), ty) == l.push(items@[i as int]));
            assert(item_ids(l.push(items@[i as int])) =~= item_ids(l).push(items@[i as int].id@));
            assert(item_ids(out@) =~= item_ids(prev).push(items@[i as int].id@));
        }
        assert(item_ids(out@) =~= item_ids(items_of(items@.take(i + 1), ty)));
        i = i + 1;
    }
    assert(items@.take(i as int) =~= items@);
    out
}

impl TrashEvent {
    /// The event narrowed to the items of one kind, or `None` where it holds
    /// none of them.
    pub fn select(&self, ty: TrashType) -> (r: Option<TrashEvent>)
        ensures
            items_of(event_items(*self), ty).len() == 0 <==> r is None,
            r matches Some(e) ==> same_kind(e, *self) && item_ids(event_items(e)) == item_ids(
                items_of(event_items(*self), ty),
            ),
    {
        match self {
            TrashEvent::NewTrash(items) => {
                let v = select_items(items, ty);
                if v.len() == 0 {
                    None
                } else {
                    Some(TrashEvent::NewTrash(v))
                }
            },
            TrashEvent::Putback(items) => {
                let v = select_items(items, ty);
                if v.len() == 0 {
                    None
                } else {
                    Some(TrashEvent::Putback(v))
                }
            },
            TrashEvent::Delete(items) => {
                let v = select_items(items, ty);
                if v.len() == 0 {
                    None
                } else {
                    Some(TrashEvent::Delete(v))
                }
            },
        }
    }
}

} // verus!
