use vstd::prelude::*;

use crate::notification_widget::NotificationWidget;
use linked_hash_map::LinkedHashMap;

verus! {

#[verifier::external_type_specification]
#[verifier::external_body]
#[verifier::reject_recursive_types(K)]
#[verifier::reject_recursive_types(V)]
#[verifier::reject_recursive_types(S)]
pub struct ExLinkedHashMap<K, V, S>(LinkedHashMap<K, V, S>);

/// The ordered list of visible pop-ups, keyed by a random identifier.
pub type WidgetMap = LinkedHashMap<u128, NotificationWidget>;

/// The entries of a widget map, in the order the map iterates them.
pub uninterp spec fn widget_entries(m: WidgetMap) -> Seq<(u128, NotificationWidget)>;

/// No key occurs twice in `s`.
pub open spec fn keys_distinct(s: Seq<(u128, NotificationWidget)>) -> bool {
    forall|i: int, j: int| 0 <= i < s.len() && 0 <= j < s.len() && i != j ==> s[i].0 != s[j].0
}

/// Whether `k` is a key of `s`.
pub open spec fn has_key(s: Seq<(u128, NotificationWidget)>, k: u128) -> bool {
    exists|i: int| 0 <= i < s.len() && s[i].0 == k
}

/// Relies on LinkedHashMap::new: the new map is empty.
#[verifier::external_body]
pub(crate) fn map_new() -> (r: WidgetMap)
    ensures
        widget_entries(r) == Seq::<(u128, NotificationWidget)>::empty(),
{
    LinkedHashMap::new()
}

/// Relies on LinkedHashMap::keys: the keys in iteration order.
#[verifier::external_body]
pub(crate) fn map_keys(m: &WidgetMap) -> (r: Vec<u128>)
    ensures
        r@ == widget_entries(*m).map_values(|e: (u128, NotificationWidget)| e.0),
{
    m.keys().cloned().collect()
}

/// Relies on LinkedHashMap::get: the value stored under `k`, if any.
#[verifier::external_body]
pub(crate) fn map_get<'a>(m: &'a WidgetMap, k: &u128) -> (r: Option<&'a NotificationWidget>)
    ensures
        match r {
            Some(w) => exists|i: int|
                0 <= i < widget_entries(*m).len() && widget_entries(*m)[i].0 == *k
                    && widget_entries(*m)[i].1 == *w,
            None => !has_key(widget_entries(*m), *k),
        },
{
    m.get(k)
}

/// Relies on LinkedHashMap's IndexMut: access to the value under a present key, in place,
/// leaving the order untouched.
#[verifier::external_body]
pub(crate) fn map_get_mut<'a>(m: &'a mut WidgetMap, k: &u128) -> (r: &'a mut NotificationWidget)
    requires
        has_key(widget_entries(*old(m)), *k),
    ensures
        exists|i: int|
            0 <= i < widget_entries(*old(m)).len() && widget_entries(*old(m))[i].0 == *k
                && widget_entries(*old(m))[i].1 == *r
                && widget_entries(*final(m)) == widget_entries(*old(m)).update(i, (*k, *final(r))),
{
    &mut m[k]
}

/// Relies on LinkedHashMap::insert: a new key goes to the end; a present key has its value
/// replaced and is moved to the end.
#[verifier::external_body]
pub(crate) fn map_insert(m: &mut WidgetMap, k: u128, v: NotificationWidget)
    ensures
        has_key(widget_entries(*old(m)), k) ==> exists|i: int|
            0 <= i < widget_entries(*old(m)).len() && widget_entries(*old(m))[i].0 == k
                && widget_entries(*final(m)) == widget_entries(*old(m)).remove(i).push((k, v)),
        !has_key(widget_entries(*old(m)), k) ==> widget_entries(*final(m)) == widget_entries(
            *old(m),
        ).push((k, v)),
{
    m.insert(k, v);
}

/// Relies on LinkedHashMap::remove: the entry under `k` leaves, the others keep their order.
#[verifier::external_body]
pub(crate) fn map_remove(m: &mut WidgetMap, k: &u128) -> (r: Option<NotificationWidget>)
    ensures
        match r {
            Some(w) => exists|i: int|
                0 <= i < widget_entries(*old(m)).len() && widget_entries(*old(m))[i].0 == *k
                    && widget_entries(*old(m))[i].1 == w
                    && widget_entries(*final(m)) == widget_entries(*old(m)).remove(i),
            None => !has_key(widget_entries(*old(m)), *k) && widget_entries(*final(m))
                == widget_entries(*old(m)),
        },
{
    m.remove(k)
}

} // verus!
