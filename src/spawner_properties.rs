use vstd::prelude::*;

use crate::dbus_signal::{
    DbusSignal, CLOSE_REASON_CLOSED, CLOSE_REASON_DISMISSED, CLOSE_REASON_EXPIRED,
};
use crate::hints::{
    hint_of, lemma_plain_hints, lemma_raw_image_wins, parse_error, parsed_matches, Hint, ParsedHints,
};
use crate::notification::{ImageSource, Notification};
use crate::notification_spawner::{
    content_of, has_id, lemma_first_with_id,
    advanced, due_ids, fresh_widget, finished_signals, is_first_match, is_first_with_id, lemma_remove_distinct,
    lemma_stack_height_nonneg, replaced, restacked, stack_height, unfinished,
    without_id, PendingClose, SpawnerView, MAX_STACK_EXTENT,
};
use crate::notification_widget::{NotificationWidget, WidgetContent, WidgetPhase, WidgetTimings};
use crate::widget_list::has_key;

verus! {

/// Adding the next pop-up to a prefix adds its height.
pub proof fn lemma_stack_height_step(s: Seq<(u128, NotificationWidget)>, i: int)
    requires
        0 <= i < s.len(),
    ensures
        stack_height(s.take(i + 1)) == stack_height(s.take(i)) + s[i].1.height,
{
    assert(s.take(i + 1).drop_last() =~= s.take(i));
}

/// A prefix of the stack is no taller than the stack.
pub proof fn lemma_stack_height_prefix(s: Seq<(u128, NotificationWidget)>, i: int)
    requires
        0 <= i <= s.len(),
    ensures
        stack_height(s.take(i)) <= stack_height(s),
    decreases s.len(),
{
    if i == s.len() {
        assert(s.take(i) =~= s);
    } else {
        lemma_stack_height_prefix(s.drop_last(), i);
        assert(s.drop_last().take(i) =~= s.take(i));
    }
}

/// After a reorder the pop-ups stand one below the other from the top, each where the
/// one above it ends: no gap and no overlap. This holds of any list of pop-ups, so also
/// of the list left after one of them closed.
pub proof fn lemma_restacked_contiguous(s: Seq<(u128, NotificationWidget)>)
    requires
        stack_height(s) <= MAX_STACK_EXTENT,
    ensures
        restacked(s).len() == s.len(),
        forall|i: int|
            0 <= i < s.len() ==> (#[trigger] restacked(s)[i]) == (
                s[i].0,
                NotificationWidget { offset: stack_height(s.take(i)) as u32, ..s[i].1 },
            ),
        s.len() > 0 ==> restacked(s)[0].1.offset == 0,
        forall|i: int|
            0 <= i < s.len() - 1 ==> (#[trigger] restacked(s)[i]).1.offset + restacked(s)[i].1.height
                == restacked(s)[i + 1].1.offset,
{
    assert forall|i: int| 0 <= i < s.len() implies (#[trigger] restacked(s)[i]) == (
        s[i].0,
        NotificationWidget { offset: stack_height(s.take(i)) as u32, ..s[i].1 },
    ) by {
        lemma_stack_height_prefix(s, i);
        lemma_stack_height_nonneg(s.take(i));
    }
    if s.len() > 0 {
        assert(s.take(0) =~= Seq::<(u128, NotificationWidget)>::empty());
    }
    assert forall|i: int| 0 <= i < s.len() - 1 implies (#[trigger] restacked(s)[i]).1.offset
        + restacked(s)[i].1.height == restacked(s)[i + 1].1.offset by {
        lemma_stack_height_step(s, i);
        lemma_stack_height_prefix(s, i);
        lemma_stack_height_prefix(s, i + 1);
        lemma_stack_height_nonneg(s.take(i));
    }
}

/// A request that replaces a visible notification updates that pop-up in place: the new
/// content is shown, its timeline starts over, and no pop-up is added. A request with a
/// nonzero `replaces_id` carries that id as its notification id.
pub proof fn lemma_replace_in_place(
    v: SpawnerView,
    guid: u128,
    app: Seq<char>,
    replaces_id: u32,
    content: WidgetContent,
    i: int,
)
    requires
        v.wf(),
        replaces_id != 0,
        0 <= i < v.widgets.len(),
        v.widgets[i].1.notification_id == replaces_id,
    ensures
        ({
            let (v2, k) = v.spawn(guid, app, replaces_id, replaces_id, content);
            &&& k == v.widgets[i].0
            &&& v2.widgets.len() == v.widgets.len()
            &&& v2.widgets[i] == (k, replaced(v.widgets[i].1, replaces_id, content))
            &&& v2.widgets[i].1.content == content
            &&& v2.widgets[i].1.elapsed == 0
            &&& forall|q: int| 0 <= q < v.widgets.len() && q != i ==> v2.widgets[q] == v.widgets[q]
        }),
{
    lemma_first_with_id(v.widgets, i);
}

/// A close by the sender of another id leaves a pop-up in place.
pub proof fn lemma_external_close_keeps(v: SpawnerView, id: u32, e: (u128, NotificationWidget))
    requires
        v.wf(),
        v.widgets.contains(e),
        e.1.notification_id != id,
    ensures
        v.external_close(id).0.wf(),
        v.external_close(id).0.widgets.contains(e),
        v.external_close(id).0.timings == v.timings,
{
    if exists|i: int| is_first_with_id(v.widgets, i, id) {
        let i = choose|i: int| is_first_with_id(v.widgets, i, id);
        let k = v.widgets[i].0;
        assert(has_key(v.widgets, k));
        let m = choose|m: int| 0 <= m < v.widgets.len() && v.widgets[m].0 == k;
        assert(m == i);
        lemma_remove_distinct(v.widgets, i);
        let a = choose|a: int| 0 <= a < v.widgets.len() && v.widgets[a] == e;
        let r = v.widgets.remove(i);
        if a < i {
            assert(r[a] == e);
        } else {
            assert(a != i);
            assert(r[a - 1] == e);
        }
    }
}

/// Closes by the sender of other ids leave a pop-up in place.
pub proof fn lemma_close_ids_keeps(v: SpawnerView, ids: Seq<u32>, e: (u128, NotificationWidget))
    requires
        v.wf(),
        v.widgets.contains(e),
        forall|j: int| 0 <= j < ids.len() ==> ids[j] != e.1.notification_id,
    ensures
        v.close_ids(ids).0.wf(),
        v.close_ids(ids).0.widgets.contains(e),
        v.close_ids(ids).0.timings == v.timings,
    decreases ids.len(),
{
    if ids.len() > 0 {
        lemma_close_ids_keeps(v, ids.drop_last(), e);
        let (u, sig) = v.close_ids(ids.drop_last());
        lemma_external_close_keeps(u, ids.last(), e);
    }
}

/// A pop-up whose timeline has not run out stays.
pub proof fn lemma_unfinished_keeps(s: Seq<(u128, NotificationWidget)>, t: WidgetTimings, e: (
    u128,
    NotificationWidget,
))
    requires
        s.contains(e),
        e.1.phase(t) != WidgetPhase::Finished,
    ensures
        unfinished(s, t).contains(e),
    decreases s.len(),
{
    if s.last() == e {
        assert(unfinished(s, t).last() == e);
    } else {
        let a = choose|a: int| 0 <= a < s.len() && s[a] == e;
        assert(s.drop_last()[a] == e);
        lemma_unfinished_keeps(s.drop_last(), t, e);
        let u = unfinished(s.drop_last(), t);
        let b = choose|b: int| 0 <= b < u.len() && u[b] == e;
        if s.last().1.phase(t) != WidgetPhase::Finished {
            assert(unfinished(s, t)[b] == e);
        }
    }
}

/// No pending close is left for `id` once it is dropped.
pub proof fn lemma_without_id(p: Seq<PendingClose>, id: u32)
    ensures
        forall|j: int| 0 <= j < without_id(p, id).len() ==> (#[trigger] without_id(p, id)[j]).notification_id != id,
    decreases p.len(),
{
    if p.len() > 0 {
        lemma_without_id(p.drop_last(), id);
        let rest = without_id(p.drop_last(), id);
        assert forall|j: int| 0 <= j < without_id(p, id).len() implies (#[trigger] without_id(
            p,
            id,
        )[j]).notification_id != id by {
            if j < rest.len() {
                assert(without_id(p, id)[j] == rest[j]);
            }
        }
    }
}

/// Every due id is the id of a pending close.
pub proof fn lemma_due_ids_from(p: Seq<PendingClose>, now: u64, id: u32)
    requires
        forall|j: int| 0 <= j < p.len() ==> (#[trigger] p[j]).notification_id != id,
    ensures
        forall|j: int| 0 <= j < due_ids(p, now).len() ==> (#[trigger] due_ids(p, now)[j]) != id,
    decreases p.len(),
{
    if p.len() > 0 {
        assert forall|j: int| 0 <= j < p.drop_last().len() implies (#[trigger] p.drop_last()[j]).notification_id != id by {
            assert(p.drop_last()[j] == p[j]);
        }
        lemma_due_ids_from(p.drop_last(), now, id);
        assert(p.last() == p[p.len() - 1]);
        let rest = due_ids(p.drop_last(), now);
        assert forall|j: int| 0 <= j < due_ids(p, now).len() implies (#[trigger] due_ids(p, now)[j])
            != id by {
            if j < rest.len() {
                assert(due_ids(p, now)[j] == rest[j]);
            }
        }
    }
}

/// Replace wins over close: when the sender closes a visible notification and then, within
/// the debounce window, replaces it, the replacement cancels the close. No close request
/// for the id is left, and the pop-up survives the next clock step unless its (restarted)
/// timeline runs out within it.
pub proof fn lemma_replace_wins_over_close(
    v: SpawnerView,
    id: u32,
    guid: u128,
    app: Seq<char>,
    content: WidgetContent,
    ms: u32,
    i: int,
)
    requires
        v.wf(),
        id != 0,
        0 <= i < v.widgets.len(),
        v.widgets[i].1.notification_id == id,
    ensures
        ({
            let v1 = v.request_close(id);
            let (v2, k) = v1.spawn(guid, app, id, id, content);
            let (v3, signals) = v2.tick(ms);
            &&& v2.shows(k)
            &&& forall|j: int| 0 <= j < v2.pending.len() ==> (#[trigger] v2.pending[j]).notification_id != id
            &&& ms < v.timings.total() ==> v3.shows(k)
            &&& !signals.contains(
                DbusSignal::NotificationClosed { notification_id: id, reason: CLOSE_REASON_CLOSED },
            )
        }),
{
    let v1 = v.request_close(id);
    let (v2, k) = v1.spawn(guid, app, id, id, content);
    assert(v1.widgets == v.widgets);
    lemma_first_with_id(v1.widgets, i);
    let j = i;
    let w2 = replaced(v1.widgets[j].1, id, content);
    assert(v2.widgets[j] == (k, w2));
    assert(has_key(v2.widgets, k));
    lemma_without_id(v1.pending, id);
    assert forall|q: int| 0 <= q < v1.widgets.len() && q != j implies (#[trigger] v1.widgets[q]).1.notification_id
        != w2.notification_id by {
        assert(v1.widgets[j].1.notification_id == id);
    }
    crate::notification_spawner::lemma_update_distinct(v1.widgets, j, w2);
    let now = if v2.now + ms > u64::MAX {
        u64::MAX
    } else {
        (v2.now + ms) as u64
    };
    let u1 = SpawnerView { now, pending: crate::notification_spawner::not_due(v2.pending, now), ..v2 };
    let due = due_ids(v2.pending, now);
    lemma_due_ids_from(v2.pending, now, id);
    assert(u1.widgets.contains((k, w2))) by {
        assert(u1.widgets[j] == (k, w2));
    }
    lemma_close_ids_keeps(u1, due, (k, w2));
    lemma_close_ids_signals(u1, due, id);
    let (u2, closed) = u1.close_ids(due);
    let t = u2.timings;
    let s3 = u2.widgets.map_values(|e: (u128, NotificationWidget)| (e.0, advanced(e.1, ms, t)));
    let e3 = (k, advanced(w2, ms, t));
    let a = choose|a: int| 0 <= a < u2.widgets.len() && u2.widgets[a] == (k, w2);
    assert(s3[a] == e3);
    let x = DbusSignal::NotificationClosed { notification_id: id, reason: CLOSE_REASON_CLOSED };
    let fin = finished_signals(s3, t);
    lemma_close_reasons(u2, id, k, s3, t);
    assert(!(closed + fin).contains(x)) by {
        if (closed + fin).contains(x) {
            let a = choose|a: int| 0 <= a < (closed + fin).len() && (closed + fin)[a] == x;
            if a < closed.len() {
                assert(closed.contains(x));
            } else {
                assert(fin[a - closed.len()] == x);
            }
        }
    }
    if ms < v.timings.total() {
        assert(e3.1.phase(t) != WidgetPhase::Finished);
        lemma_unfinished_keeps(s3, t, e3);
        let (v3, signals) = v2.tick(ms);
        let b = choose|b: int| 0 <= b < unfinished(s3, t).len() && unfinished(s3, t)[b] == e3;
        assert(v3.widgets[b].0 == k);
    }
}

/// Closes by the sender of ids other than `id` keep the keys distinct and report no
/// close of `id`.
pub proof fn lemma_close_ids_signals(v: SpawnerView, ids: Seq<u32>, id: u32)
    requires
        v.wf(),
        forall|j: int| 0 <= j < ids.len() ==> ids[j] != id,
    ensures
        v.close_ids(ids).0.wf(),
        !v.close_ids(ids).1.contains(
            DbusSignal::NotificationClosed { notification_id: id, reason: CLOSE_REASON_CLOSED },
        ),
    decreases ids.len(),
{
    if ids.len() > 0 {
        lemma_close_ids_signals(v, ids.drop_last(), id);
        let (u, sig) = v.close_ids(ids.drop_last());
        let last = ids.last();
        assert(last == ids[ids.len() - 1]);
        if exists|i: int| is_first_with_id(u.widgets, i, last) {
            let i = choose|i: int| is_first_with_id(u.widgets, i, last);
            let key = u.widgets[i].0;
            assert(has_key(u.widgets, key));
            let m = choose|m: int| 0 <= m < u.widgets.len() && u.widgets[m].0 == key;
            assert(m == i);
            lemma_remove_distinct(u.widgets, i);
            let (u2, o) = u.external_close(last);
            let x = DbusSignal::NotificationClosed { notification_id: id, reason: CLOSE_REASON_CLOSED };
            assert(o == Some(DbusSignal::NotificationClosed { notification_id: last, reason: CLOSE_REASON_CLOSED }));
            assert(!sig.push(o.unwrap()).contains(x)) by {
                if sig.push(o.unwrap()).contains(x) {
                    let a = choose|a: int| 0 <= a < sig.push(o.unwrap()).len() && sig.push(o.unwrap())[a] == x;
                    if a < sig.len() {
                        assert(sig.contains(x));
                    }
                }
            }
        }
    }
}

/// A request that asks for a new id, one no pop-up shows, never replaces: its pop-up
/// joins the bottom of the stack under its fresh key, beside every pop-up already shown.
pub proof fn lemma_new_notification_adds(
    v: SpawnerView,
    guid: u128,
    app: Seq<char>,
    notification_id: u32,
    content: WidgetContent,
)
    requires
        v.wf(),
        !v.shows(guid),
        !has_id(v.widgets, notification_id),
    ensures
        ({
            let (v2, k) = v.spawn(guid, app, 0, notification_id, content);
            &&& k == guid
            &&& v2.widgets == v.widgets.push((guid, fresh_widget(notification_id, content)))
            &&& v2.pending == v.pending
        }),
{
    assert(!exists|i: int| is_first_match(v.widgets, i, app, 0u32));
    assert(!exists|i: int| is_first_with_id(v.widgets, i, notification_id));
}

/// Close reasons: a pop-up whose timeline ran out is reported as expired, one the sender
/// closed as closed, and one the user dismissed as dismissed.
pub proof fn lemma_close_reasons(
    v: SpawnerView,
    id: u32,
    k: u128,
    s: Seq<(u128, NotificationWidget)>,
    t: WidgetTimings,
)
    requires
        v.wf(),
    ensures
        forall|j: int| 0 <= j < finished_signals(s, t).len() ==> ((#[trigger] finished_signals(s, t)[j]) matches DbusSignal::NotificationClosed { reason, .. } && reason == CLOSE_REASON_EXPIRED),
        (v.external_close(id).1 matches Some(DbusSignal::NotificationClosed { notification_id, reason }) ==> notification_id == id && reason == CLOSE_REASON_CLOSED),
        v.external_close(id).1 is None <==> !(exists|i: int| is_first_with_id(v.widgets, i, id)),
        (v.close(k, CLOSE_REASON_DISMISSED).1 matches Some(DbusSignal::NotificationClosed { reason, .. }) ==> reason == CLOSE_REASON_DISMISSED),
        v.shows(k) ==> v.close(k, CLOSE_REASON_DISMISSED).1 is Some,
    decreases s.len(),
{
    if s.len() > 0 {
        lemma_close_reasons(v, id, k, s.drop_last(), t);
    }
    if exists|i: int| is_first_with_id(v.widgets, i, id) {
        let i = choose|i: int| is_first_with_id(v.widgets, i, id);
        let key = v.widgets[i].0;
        assert(has_key(v.widgets, key));
        let m = choose|m: int| 0 <= m < v.widgets.len() && v.widgets[m].0 == key;
        assert(m == i);
    }
}

/// A notification without desktop entry and image shows no image, and no name is looked
/// up for its icon: it shows the generic icon (see `content_icon`).
pub proof fn lemma_plain_notification_content(n: Notification)
    requires
        n.desktop_entry@.len() == 0,
        n.image_data is None,
        n.image_path is None,
    ensures
        content_of(n).icon_name is None,
        content_of(n).image == ImageSource::NoImage,
{
}

/// Raw image data wins through the whole path: when a request's hints carry raw image
/// data and an image path and decode, the pop-up of the notification made from them
/// shows the raw image.
pub proof fn lemma_notification_shows_raw_image(h: Seq<Hint>, n: Notification)
    requires
        hint_of(h, "image-data"@) is Some,
        hint_of(h, "image-path"@) is Some,
        parse_error(h) is None,
        parsed_matches(
            ParsedHints {
                desktop_entry: n.desktop_entry,
                image_data: n.image_data,
                image_path: n.image_path,
            },
            h,
        ),
    ensures
        content_of(n).image is Raw,
{
    lemma_raw_image_wins(
        h,
        ParsedHints { desktop_entry: n.desktop_entry, image_data: n.image_data, image_path: n.image_path },
    );
}

/// Hints without desktop entry and image decode without error, and the pop-up of the
/// notification made from them shows no image and the generic icon (see `content_icon`).
pub proof fn lemma_plain_request_content(h: Seq<Hint>, n: Notification)
    requires
        forall|i: int|
            0 <= i < h.len() ==> {
                let k = (#[trigger] h[i]).key@;
                &&& k != "desktop-entry"@
                &&& k != "image-data"@
                &&& k != "image_data"@
                &&& k != "icon-data"@
                &&& k != "icon_data"@
                &&& k != "image-path"@
            },
        parsed_matches(
            ParsedHints {
                desktop_entry: n.desktop_entry,
                image_data: n.image_data,
                image_path: n.image_path,
            },
            h,
        ),
    ensures
        parse_error(h) is None,
        content_of(n).icon_name is None,
        content_of(n).image == ImageSource::NoImage,
{
    lemma_plain_hints(
        h,
        ParsedHints { desktop_entry: n.desktop_entry, image_data: n.image_data, image_path: n.image_path },
    );
}

} // verus!
