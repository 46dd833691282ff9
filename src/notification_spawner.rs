use vstd::prelude::*;
use vstd::set_lib::{lemma_int_range, lemma_len_subset, set_int_range};

use crate::dbus_signal::{
    DbusSignal, CLOSE_REASON_CLOSED, CLOSE_REASON_DISMISSED, CLOSE_REASON_EXPIRED,
};
use crate::notification::{image_source, image_source_of, Notification};
use crate::registry::NotificationRegistry;
use crate::notification_widget::{NotificationWidget, WidgetContent, WidgetPhase, WidgetTimings};
use crate::widget_list::{
    has_key, keys_distinct, map_get, map_get_mut, map_insert, map_keys, map_new, map_remove,
    widget_entries, WidgetMap,
};

verus! {

/// How long a close request waits before it takes effect, in milliseconds, so that a
/// replacement that follows at once can cancel it.
pub const CLOSE_DEBOUNCE_MS: u64 = 100;

/// The largest vertical extent of the stack of pop-ups.
pub const MAX_STACK_EXTENT: u32 = 2147483647;

/// A close request for a notification id, waiting for its debounce window to pass.
#[derive(Debug, Clone, Copy, PartialEq, Eq, Structural)]
pub struct PendingClose {
    pub notification_id: u32,
    /// Clock time at which the close takes effect.
    pub due: u64,
}

/// What the spawner holds, as mathematical values.
pub struct SpawnerView {
    /// The visible pop-ups, top to bottom, each under its key.
    pub widgets: Seq<(u128, NotificationWidget)>,
    pub pending: Seq<PendingClose>,
    /// Milliseconds since the spawner started.
    pub now: u64,
    pub timings: WidgetTimings,
}

/// Whether the pop-up `w` is the one a request from `app` with `replaces_id` replaces.
/// One sender counts its ids up by one on each replacement; its pop-ups also match the
/// id just below.
pub open spec fn matches_replace(w: NotificationWidget, app: Seq<char>, replaces_id: u32) -> bool {
    replaces_id != 0 && (w.notification_id == replaces_id || (app == "discord"@
        && w.notification_id + 1 == replaces_id))
}

/// `i` is the first entry of `s` that a request from `app` with `replaces_id` replaces.
pub open spec fn is_first_match(
    s: Seq<(u128, NotificationWidget)>,
    i: int,
    app: Seq<char>,
    replaces_id: u32,
) -> bool {
    &&& 0 <= i < s.len()
    &&& matches_replace(s[i].1, app, replaces_id)
    &&& forall|j: int| 0 <= j < i ==> !matches_replace(#[trigger] s[j].1, app, replaces_id)
}

/// The index of key `k` in `s`.
pub open spec fn key_index(s: Seq<(u128, NotificationWidget)>, k: u128) -> int {
    choose|i: int| 0 <= i < s.len() && s[i].0 == k
}

/// `s` after an entry is put under `k`: a present key leaves its place, and the entry goes
/// to the end.
pub open spec fn inserted(
    s: Seq<(u128, NotificationWidget)>,
    k: u128,
    w: NotificationWidget,
) -> Seq<(u128, NotificationWidget)> {
    if has_key(s, k) {
        s.remove(key_index(s, k)).push((k, w))
    } else {
        s.push((k, w))
    }
}

/// The pending closes of `p` that are not for `id`.
pub open spec fn without_id(p: Seq<PendingClose>, id: u32) -> Seq<PendingClose>
    decreases p.len(),
{
    if p.len() == 0 {
        p
    } else {
        let rest = without_id(p.drop_last(), id);
        if p.last().notification_id == id {
            rest
        } else {
            rest.push(p.last())
        }
    }
}

/// The pop-up that replaces `w`: it takes the new id and content, and its timeline
/// starts over.
pub open spec fn replaced(w: NotificationWidget, notification_id: u32, content: WidgetContent) -> NotificationWidget {
    NotificationWidget { notification_id, content, elapsed: 0, ..w }
}

/// A pop-up as it first appears.
pub open spec fn fresh_widget(notification_id: u32, content: WidgetContent) -> NotificationWidget {
    NotificationWidget {
        notification_id,
        content,
        width: 0,
        height: 0,
        offset: 0,
        elapsed: 0,
        frozen: false,
        hovered: false,
    }
}

/// `i` is the first entry of `s` that shows notification `id`.
pub open spec fn is_first_with_id(s: Seq<(u128, NotificationWidget)>, i: int, id: u32) -> bool {
    &&& 0 <= i < s.len()
    &&& s[i].1.notification_id == id
    &&& forall|j: int| 0 <= j < i ==> (#[trigger] s[j].1).notification_id != id
}

/// The ids of the close requests of `p` that are due at `now`, in order.
pub open spec fn due_ids(p: Seq<PendingClose>, now: u64) -> Seq<u32>
    decreases p.len(),
{
    if p.len() == 0 {
        Seq::empty()
    } else if p.last().due <= now {
        due_ids(p.drop_last(), now).push(p.last().notification_id)
    } else {
        due_ids(p.drop_last(), now)
    }
}

/// The close requests of `p` that still wait at `now`.
pub open spec fn not_due(p: Seq<PendingClose>, now: u64) -> Seq<PendingClose>
    decreases p.len(),
{
    if p.len() == 0 {
        p
    } else if p.last().due <= now {
        not_due(p.drop_last(), now)
    } else {
        not_due(p.drop_last(), now).push(p.last())
    }
}

/// The pop-ups of `s` whose timeline has not run out.
pub open spec fn unfinished(s: Seq<(u128, NotificationWidget)>, t: WidgetTimings) -> Seq<(u128, NotificationWidget)>
    decreases s.len(),
{
    if s.len() == 0 {
        s
    } else if s.last().1.phase(t) == WidgetPhase::Finished {
        unfinished(s.drop_last(), t)
    } else {
        unfinished(s.drop_last(), t).push(s.last())
    }
}

/// The close signals, reason expired, of the pop-ups of `s` whose timeline has run out.
pub open spec fn finished_signals(s: Seq<(u128, NotificationWidget)>, t: WidgetTimings) -> Seq<DbusSignal>
    decreases s.len(),
{
    if s.len() == 0 {
        Seq::empty()
    } else if s.last().1.phase(t) == WidgetPhase::Finished {
        finished_signals(s.drop_last(), t).push(
            DbusSignal::NotificationClosed {
                notification_id: s.last().1.notification_id,
                reason: CLOSE_REASON_EXPIRED,
            },
        )
    } else {
        finished_signals(s.drop_last(), t)
    }
}

/// Every entry left after the finished pop-ups leave is an entry of `s`.
pub proof fn lemma_unfinished_sub(s: Seq<(u128, NotificationWidget)>, t: WidgetTimings)
    ensures
        forall|a: int| 0 <= a < unfinished(s, t).len() ==> s.contains(#[trigger] unfinished(s, t)[a]),
    decreases s.len(),
{
    if s.len() > 0 {
        let d = s.drop_last();
        lemma_unfinished_sub(d, t);
        let u = unfinished(s, t);
        assert forall|a: int| 0 <= a < u.len() implies s.contains(#[trigger] u[a]) by {
            if a < unfinished(d, t).len() {
                assert(u[a] == unfinished(d, t)[a]);
                let b = choose|b: int| 0 <= b < d.len() && d[b] == u[a];
                assert(s[b] == d[b]);
            } else {
                assert(s[s.len() - 1] == u[a]);
            }
        }
    }
}

/// Total height of the pop-ups of `s`.
pub open spec fn stack_height(s: Seq<(u128, NotificationWidget)>) -> int
    decreases s.len(),
{
    if s.len() == 0 {
        0
    } else {
        stack_height(s.drop_last()) + s.last().1.height
    }
}

/// A total height is never negative.
pub proof fn lemma_stack_height_nonneg(s: Seq<(u128, NotificationWidget)>)
    ensures
        stack_height(s) >= 0,
    decreases s.len(),
{
    if s.len() > 0 {
        lemma_stack_height_nonneg(s.drop_last());
    }
}

/// The widest pop-up of `s`, or 0.
pub open spec fn max_width(s: Seq<(u128, NotificationWidget)>) -> u32
    decreases s.len(),
{
    if s.len() == 0 {
        0
    } else if max_width(s.drop_last()) < s.last().1.width {
        s.last().1.width
    } else {
        max_width(s.drop_last())
    }
}

/// The largest of `s`, or 0.
pub open spec fn max_of(s: Seq<u32>) -> u32
    decreases s.len(),
{
    if s.len() == 0 {
        0
    } else {
        max_u32(max_of(s.drop_last()), s.last())
    }
}

/// The larger of `a` and `b`.
pub open spec fn max_u32(a: u32, b: u32) -> u32 {
    if a < b {
        b
    } else {
        a
    }
}

/// A vertical position, held to the largest extent of the stack.
pub open spec fn clamp_extent(x: int) -> u32 {
    if x > MAX_STACK_EXTENT {
        MAX_STACK_EXTENT
    } else {
        x as u32
    }
}

/// The pop-ups of `s`, each moved to the total height of those above it.
pub open spec fn restacked(s: Seq<(u128, NotificationWidget)>) -> Seq<(u128, NotificationWidget)> {
    Seq::new(
        s.len(),
        |i: int| (s[i].0, NotificationWidget { offset: clamp_extent(stack_height(s.take(i))), ..s[i].1 }),
    )
}

/// A pop-up after the periodic poll saw the freeze key and the cursor.
pub open spec fn hover_checked(w: NotificationWidget, freeze_key_held: bool, x: int, y: int) -> NotificationWidget {
    NotificationWidget { frozen: freeze_key_held, hovered: w.contains_point(x, y), ..w }
}

/// A pop-up after `ms` milliseconds of its timeline.
pub open spec fn advanced(w: NotificationWidget, ms: u32, t: WidgetTimings) -> NotificationWidget {
    NotificationWidget { elapsed: w.advanced_elapsed(ms, t), ..w }
}

/// No notification id occurs twice among the pop-ups of `s`.
pub open spec fn ids_distinct(s: Seq<(u128, NotificationWidget)>) -> bool {
    forall|i: int, j: int|
        0 <= i < s.len() && 0 <= j < s.len() && i != j ==> s[i].1.notification_id
            != s[j].1.notification_id
}

/// Whether a pop-up of `s` shows notification `id`.
pub open spec fn has_id(s: Seq<(u128, NotificationWidget)>, id: u32) -> bool {
    exists|i: int| 0 <= i < s.len() && (#[trigger] s[i]).1.notification_id == id
}

/// `t` holds the keys and notification ids of `s`, in the same places.
pub open spec fn same_keys_and_ids(s: Seq<(u128, NotificationWidget)>, t: Seq<(u128, NotificationWidget)>) -> bool {
    &&& t.len() == s.len()
    &&& forall|q: int|
        0 <= q < s.len() ==> (#[trigger] t[q]).0 == s[q].0 && t[q].1.notification_id
            == s[q].1.notification_id
}

/// Entries with the keys and ids of distinct entries are distinct.
pub proof fn lemma_same_keys_and_ids(s: Seq<(u128, NotificationWidget)>, t: Seq<(u128, NotificationWidget)>)
    requires
        keys_distinct(s),
        ids_distinct(s),
        same_keys_and_ids(s, t),
    ensures
        keys_distinct(t),
        ids_distinct(t),
{
    assert forall|a: int, b: int| 0 <= a < t.len() && 0 <= b < t.len() && a != b implies t[a].0
        != t[b].0 && t[a].1.notification_id != t[b].1.notification_id by {
        assert(t[a].0 == s[a].0 && t[b].0 == s[b].0);
    }
}

/// Removing an entry keeps the keys and ids distinct.
pub proof fn lemma_remove_distinct(s: Seq<(u128, NotificationWidget)>, i: int)
    requires
        keys_distinct(s),
        0 <= i < s.len(),
    ensures
        keys_distinct(s.remove(i)),
        ids_distinct(s) ==> ids_distinct(s.remove(i)),
        forall|k: u128| has_key(s.remove(i), k) <==> (has_key(s, k) && k != s[i].0),
        forall|a: int| 0 <= a < s.remove(i).len() ==> s.contains(#[trigger] s.remove(i)[a]),
{
    let r = s.remove(i);
    assert forall|a: int, b: int| 0 <= a < r.len() && 0 <= b < r.len() && a != b implies r[a].0
        != r[b].0 && (ids_distinct(s) ==> r[a].1.notification_id != r[b].1.notification_id) by {
        let a2 = if a < i { a } else { a + 1 };
        let b2 = if b < i { b } else { b + 1 };
        assert(r[a] == s[a2] && r[b] == s[b2]);
    }
    assert forall|a: int| 0 <= a < r.len() implies s.contains(#[trigger] r[a]) by {
        let a2 = if a < i { a } else { a + 1 };
        assert(r[a] == s[a2]);
    }
    assert forall|k: u128| has_key(r, k) implies has_key(s, k) && k != s[i].0 by {
        let a = choose|a: int| 0 <= a < r.len() && r[a].0 == k;
        let a2 = if a < i { a } else { a + 1 };
        assert(r[a] == s[a2]);
    }
    assert forall|k: u128| has_key(s, k) && k != s[i].0 implies has_key(r, k) by {
        let a = choose|a: int| 0 <= a < s.len() && s[a].0 == k;
        if a < i {
            assert(r[a] == s[a]);
        } else {
            assert(a != i);
            assert(r[a - 1] == s[a]);
        }
    }
}

/// Adding an entry under a new key and a new id keeps the keys and ids distinct.
pub proof fn lemma_push_distinct(s: Seq<(u128, NotificationWidget)>, k: u128, w: NotificationWidget)
    requires
        keys_distinct(s),
        !has_key(s, k),
    ensures
        keys_distinct(s.push((k, w))),
        ids_distinct(s) && !has_id(s, w.notification_id) ==> ids_distinct(s.push((k, w))),
{
    let r = s.push((k, w));
    assert forall|a: int, b: int| 0 <= a < r.len() && 0 <= b < r.len() && a != b implies r[a].0
        != r[b].0 && (ids_distinct(s) && !has_id(s, w.notification_id) ==> r[a].1.notification_id
        != r[b].1.notification_id) by {
        if a < s.len() && b < s.len() {
            assert(r[a] == s[a] && r[b] == s[b]);
        } else if a < s.len() {
            assert(r[a] == s[a]);
        } else {
            assert(r[b] == s[b]);
        }
    }
}

/// Putting an entry under any key, with a new id, keeps the keys and ids distinct.
pub proof fn lemma_inserted_distinct(s: Seq<(u128, NotificationWidget)>, k: u128, w: NotificationWidget)
    requires
        keys_distinct(s),
    ensures
        keys_distinct(inserted(s, k, w)),
        ids_distinct(s) && !has_id(s, w.notification_id) ==> ids_distinct(inserted(s, k, w)),
{
    if has_key(s, k) {
        let i = key_index(s, k);
        lemma_remove_distinct(s, i);
        let r = s.remove(i);
        if has_id(r, w.notification_id) {
            let a = choose|a: int| 0 <= a < r.len() && (#[trigger] r[a]).1.notification_id == w.notification_id;
            let b = choose|b: int| 0 <= b < s.len() && s[b] == r[a];
            assert(has_id(s, w.notification_id));
        }
        lemma_push_distinct(r, k, w);
    } else {
        lemma_push_distinct(s, k, w);
    }
}

/// Changing the value of an entry keeps the keys distinct, and the ids when the new id
/// is not another entry's.
pub proof fn lemma_update_distinct(s: Seq<(u128, NotificationWidget)>, i: int, w: NotificationWidget)
    requires
        keys_distinct(s),
        0 <= i < s.len(),
    ensures
        keys_distinct(s.update(i, (s[i].0, w))),
        ids_distinct(s) && (forall|q: int| 0 <= q < s.len() && q != i ==> (#[trigger] s[q]).1.notification_id
            != w.notification_id) ==> ids_distinct(s.update(i, (s[i].0, w))),
{
    let r = s.update(i, (s[i].0, w));
    assert forall|a: int, b: int| 0 <= a < r.len() && 0 <= b < r.len() && a != b implies r[a].0
        != r[b].0 by {
        assert(r[a].0 == s[a].0 && r[b].0 == s[b].0);
    }
    if ids_distinct(s) && (forall|q: int| 0 <= q < s.len() && q != i ==> (#[trigger] s[q]).1.notification_id
        != w.notification_id) {
        assert forall|a: int, b: int| 0 <= a < r.len() && 0 <= b < r.len() && a != b implies r[a].1.notification_id
            != r[b].1.notification_id by {
            if a == i {
                assert(s[b] == r[b]);
            } else if b == i {
                assert(s[a] == r[a]);
            } else {
                assert(s[a] == r[a] && s[b] == r[b]);
            }
        }
    }
}

/// In distinct ids, the first pop-up with an id is the only one.
pub proof fn lemma_first_with_id(s: Seq<(u128, NotificationWidget)>, i: int)
    requires
        ids_distinct(s),
        0 <= i < s.len(),
    ensures
        is_first_with_id(s, i, s[i].1.notification_id),
        (choose|j: int| is_first_with_id(s, j, s[i].1.notification_id)) == i,
{
    let id = s[i].1.notification_id;
    assert(is_first_with_id(s, i, id));
    let j = choose|j: int| is_first_with_id(s, j, id);
    assert(is_first_with_id(s, j, id));
}

/// Distinct keys cover at most as many values as there are entries: when every value
/// below `c` is a key, `c` is at most the number of entries.
pub proof fn lemma_keys_cover(s: Seq<(u128, NotificationWidget)>, c: int)
    requires
        0 <= c,
        forall|x: int| 0 <= x < c ==> #[trigger] has_key(s, x as u128) && x <= u128::MAX,
    ensures
        c <= s.len(),
{
    let ks = s.map_values(|e: (u128, NotificationWidget)| e.0 as int);
    let keys = ks.to_set();
    let range = set_int_range(0, c);
    lemma_int_range(0, c);
    ks.lemma_cardinality_of_set();
    assert(range.subset_of(keys)) by {
        assert forall|x: int| range.contains(x) implies keys.contains(x) by {
            assert(has_key(s, x as u128));
            let a = choose|a: int| 0 <= a < s.len() && s[a].0 == x as u128;
            assert(ks[a] == x);
        }
    }
    lemma_len_subset(range, keys);
}

/// In distinct keys, the entry under a key has one index.
pub proof fn lemma_key_index(s: Seq<(u128, NotificationWidget)>, i: int)
    requires
        keys_distinct(s),
        0 <= i < s.len(),
    ensures
        key_index(s, s[i].0) == i,
        has_key(s, s[i].0),
{
    assert(has_key(s, s[i].0));
}

/// A first match is unique.
pub proof fn lemma_first_match_unique(
    s: Seq<(u128, NotificationWidget)>,
    i: int,
    app: Seq<char>,
    replaces_id: u32,
)
    requires
        is_first_match(s, i, app, replaces_id),
    ensures
        (choose|j: int| is_first_match(s, j, app, replaces_id)) == i,
{
    let j = choose|j: int| is_first_match(s, j, app, replaces_id);
    assert(is_first_match(s, j, app, replaces_id));
    if j < i {
        assert(!matches_replace(s[j].1, app, replaces_id));
    } else if i < j {
        assert(!matches_replace(s[i].1, app, replaces_id));
    }
}

impl SpawnerView {
    /// No key and no notification id occurs twice among the pop-ups.
    pub open spec fn wf(self) -> bool {
        keys_distinct(self.widgets) && ids_distinct(self.widgets)
    }

    /// The state with every pop-up moved below the ones above it.
    pub open spec fn restack(self) -> SpawnerView {
        SpawnerView { widgets: restacked(self.widgets), ..self }
    }

    /// Whether a pop-up stands under `k`.
    pub open spec fn shows(self, k: u128) -> bool {
        has_key(self.widgets, k)
    }

    /// The state after the pop-up under `k` closed with `reason`, and the signal that
    /// reports it.
    pub open spec fn close(self, k: u128, reason: u32) -> (SpawnerView, Option<DbusSignal>) {
        if has_key(self.widgets, k) {
            let i = key_index(self.widgets, k);
            (
                SpawnerView { widgets: self.widgets.remove(i), ..self },
                Some(
                    DbusSignal::NotificationClosed {
                        notification_id: self.widgets[i].1.notification_id,
                        reason,
                    },
                ),
            )
        } else {
            (self, None)
        }
    }

    /// The state after the sender closed notification `id`: its first pop-up closes at
    /// once, with reason closed.
    pub open spec fn external_close(self, id: u32) -> (SpawnerView, Option<DbusSignal>) {
        if exists|i: int| is_first_with_id(self.widgets, i, id) {
            let i = choose|i: int| is_first_with_id(self.widgets, i, id);
            self.close(self.widgets[i].0, CLOSE_REASON_CLOSED)
        } else {
            (self, None)
        }
    }

    /// The state after the sender closed each of `ids` in turn, and the signals.
    pub open spec fn close_ids(self, ids: Seq<u32>) -> (SpawnerView, Seq<DbusSignal>)
        decreases ids.len(),
    {
        if ids.len() == 0 {
            (self, Seq::empty())
        } else {
            let (v, sig) = self.close_ids(ids.drop_last());
            let (v2, o) = v.external_close(ids.last());
            (
                v2,
                match o {
                    Some(x) => sig.push(x),
                    None => sig,
                },
            )
        }
    }

    /// One step of the clock by `ms` milliseconds: the close requests whose window has
    /// passed take effect, every timeline runs on, and the pop-ups whose timeline ran out
    /// close as expired. Returns the new state and the signals, in that order.
    pub open spec fn tick(self, ms: u32) -> (SpawnerView, Seq<DbusSignal>) {
        let now = if self.now + ms > u64::MAX {
            u64::MAX
        } else {
            (self.now + ms) as u64
        };
        let v1 = SpawnerView { now, pending: not_due(self.pending, now), ..self };
        let (v2, closed) = v1.close_ids(due_ids(self.pending, now));
        let s3 = v2.widgets.map_values(
            |e: (u128, NotificationWidget)| (e.0, advanced(e.1, ms, v2.timings)),
        );
        (
            SpawnerView { widgets: unfinished(s3, v2.timings), ..v2 },
            closed + finished_signals(s3, v2.timings),
        )
    }

    /// The state after a close request for `id` was queued.
    pub open spec fn request_close(self, id: u32) -> SpawnerView {
        let due = if self.now + CLOSE_DEBOUNCE_MS > u64::MAX {
            u64::MAX
        } else {
            (self.now + CLOSE_DEBOUNCE_MS) as u64
        };
        SpawnerView { pending: self.pending.push(PendingClose { notification_id: id, due }), ..self }
    }

    /// The state after a notification from `app` with `replaces_id` and `notification_id`
    /// was spawned, and the key of the pop-up that shows it. The pop-up replaced is the
    /// one that already shows `notification_id`, else the first that `replaces_id`
    /// matches; it takes `notification_id`, the new content, and a timeline that starts
    /// over. Else a new pop-up under `guid` joins the bottom of the stack. A replacement
    /// cancels the close requests that wait for `replaces_id`.
    pub open spec fn spawn(
        self,
        guid: u128,
        app: Seq<char>,
        replaces_id: u32,
        notification_id: u32,
        content: WidgetContent,
    ) -> (SpawnerView, u128) {
        let s = self.widgets;
        let pending = if replaces_id != 0 {
            without_id(self.pending, replaces_id)
        } else {
            self.pending
        };
        match replace_target(s, app, replaces_id, notification_id) {
            Some(i) => (
                SpawnerView {
                    widgets: s.update(i, (s[i].0, replaced(s[i].1, notification_id, content))),
                    pending,
                    ..self
                },
                s[i].0,
            ),
            None => (
                SpawnerView {
                    widgets: inserted(s, guid, fresh_widget(notification_id, content)),
                    pending,
                    ..self
                },
                guid,
            ),
        }
    }
}

/// The index of the pop-up of `s` that a notification from `app` with `replaces_id` and
/// `notification_id` replaces: the one that shows `notification_id`, else the first that
/// `replaces_id` matches, else none.
pub open spec fn replace_target(
    s: Seq<(u128, NotificationWidget)>,
    app: Seq<char>,
    replaces_id: u32,
    notification_id: u32,
) -> Option<int> {
    if exists|i: int| is_first_with_id(s, i, notification_id) {
        Some(choose|i: int| is_first_with_id(s, i, notification_id))
    } else if exists|i: int| is_first_match(s, i, app, replaces_id) {
        Some(choose|i: int| is_first_match(s, i, app, replaces_id))
    } else {
        None
    }
}

/// What the pop-up of notification `n` shows. Its icon is looked up under the desktop
/// entry; without one the pop-up shows the generic icon.
pub open spec fn content_of(n: Notification) -> WidgetContent {
    WidgetContent {
        app_name: n.app_name,
        title: n.summary,
        body: n.body,
        icon_name: if n.desktop_entry@.len() > 0 {
            Some(n.desktop_entry)
        } else {
            None
        },
        image: image_source_of(n.image_data, n.image_path),
    }
}

/// Builds what the pop-up of `notification` shows.
pub fn set_notification_contents(notification: Notification) -> (r: WidgetContent)
    ensures
        r == content_of(notification),
{
    let Notification { app_name, summary, body, image_data, image_path, desktop_entry, .. } =
        notification;
    let icon_name = if !desktop_entry.as_str().is_empty() {
        Some(desktop_entry)
    } else {
        None
    };
    WidgetContent {
        app_name,
        title: summary,
        body,
        icon_name,
        image: image_source(image_data, image_path),
    }
}

/// Whether `s` names the sender whose replacement ids count up.
fn is_discord(s: &String) -> (r: bool)
    ensures
        r == (s@ == "discord"@),
{
    let d = "discord".to_string();
    proof {
        reveal_strlit("discord");
    }
    s.eq(&d)
}

/// The visible pop-ups and the decisions about them: replacement, stacking, hover and
/// freeze, expiry and closing.
pub struct NotificationSpawner {
    widget_list: WidgetMap,
    pending_closes: Vec<PendingClose>,
    now: u64,
    timings: WidgetTimings,
}

impl View for NotificationSpawner {
    type V = SpawnerView;

    closed spec fn view(&self) -> SpawnerView {
        SpawnerView {
            widgets: widget_entries(self.widget_list),
            pending: self.pending_closes@,
            now: self.now,
            timings: self.timings,
        }
    }
}

impl NotificationSpawner {
    pub fn new(timings: WidgetTimings) -> (r: NotificationSpawner)
        ensures
            r@ == (SpawnerView {
                widgets: Seq::empty(),
                pending: Seq::empty(),
                now: 0,
                timings,
            }),
            r@.wf(),
    {
        NotificationSpawner { widget_list: map_new(), pending_closes: Vec::new(), now: 0, timings }
    }

    /// Finds the pop-up that a request from `app_name` with `replaces_id` and
    /// `notification_id` replaces: the one that already shows `notification_id`, else the
    /// first in stacking order that `replaces_id` matches. That pop-up takes
    /// `notification_id` as its id.
    pub fn get_already_existing_notification(
        &mut self,
        app_name: &String,
        replaces_id: u32,
        notification_id: u32,
    ) -> (r: Option<u128>)
        requires
            old(self)@.wf(),
        ensures
            final(self)@.wf(),
            match r {
                Some(k) => exists|i: int|
                    replace_target(old(self)@.widgets, app_name@, replaces_id, notification_id)
                        == Some(i) && old(self)@.widgets[i].0 == k && final(self)@ == (SpawnerView {
                        widgets: old(self)@.widgets.update(
                            i,
                            (k, NotificationWidget { notification_id, ..old(self)@.widgets[i].1 }),
                        ),
                        ..old(self)@
                    }),
                None => replace_target(old(self)@.widgets, app_name@, replaces_id, notification_id)
                    is None && final(self)@ == old(self)@,
            },
    {
        let keys = map_keys(&self.widget_list);
        let discord = is_discord(app_name);
        let ghost s = self@.widgets;
        let mut j: usize = 0;
        while j < keys.len()
            invariant
                self@ == old(self)@,
                old(self)@.wf(),
                s == old(self)@.widgets,
                keys@ == s.map_values(|e: (u128, NotificationWidget)| e.0),
                j <= keys.len(),
                forall|q: int| 0 <= q < j ==> (#[trigger] s[q].1).notification_id != notification_id,
            decreases keys.len() - j,
        {
            let k = keys[j];
            assert(s[j as int].0 == k);
            let wo = map_get(&self.widget_list, &k);
            assert(has_key(s, k));
            let w = wo.unwrap();
            proof {
                let i = choose|i: int| 0 <= i < s.len() && s[i].0 == k && s[i].1 == *w;
                assert(i == j);
            }
            if w.notification_id == notification_id {
                proof {
                    lemma_first_with_id(s, j as int);
                    let e = (k, NotificationWidget { notification_id, ..s[j as int].1 });
                    assert(e == s[j as int]);
                    assert(s.update(j as int, e) =~= s);
                }
                return Some(k);
            }
            j += 1;
        }
        proof {
            assert(!exists|i: int| is_first_with_id(s, i, notification_id));
        }
        if replaces_id == 0 {
            return None;
        }
        let mut j: usize = 0;
        while j < keys.len()
            invariant
                self@ == old(self)@,
                old(self)@.wf(),
                s == old(self)@.widgets,
                keys@ == s.map_values(|e: (u128, NotificationWidget)| e.0),
                discord == (app_name@ == "discord"@),
                replaces_id != 0,
                j <= keys.len(),
                forall|q: int| 0 <= q < s.len() ==> (#[trigger] s[q].1).notification_id != notification_id,
                forall|q: int| 0 <= q < j ==> !matches_replace(#[trigger] s[q].1, app_name@, replaces_id),
            decreases keys.len() - j,
        {
            let k = keys[j];
            assert(s[j as int].0 == k);
            let wo = map_get(&self.widget_list, &k);
            assert(has_key(s, k));
            let w = wo.unwrap();
            proof {
                let i = choose|i: int| 0 <= i < s.len() && s[i].0 == k && s[i].1 == *w;
                assert(i == j);
            }
            let wid = w.notification_id;
            if wid == replaces_id || (discord && wid == replaces_id - 1) {
                let wm = map_get_mut(&mut self.widget_list, &k);
                wm.notification_id = notification_id;
                proof {
                    let t = self@.widgets;
                    let e = (k, NotificationWidget { notification_id, ..s[j as int].1 });
                    assert(t == s.update(j as int, e));
                    assert(is_first_match(s, j as int, app_name@, replaces_id));
                    lemma_first_match_unique(s, j as int, app_name@, replaces_id);
                    lemma_update_distinct(s, j as int, e.1);
                }
                return Some(k);
            }
            j += 1;
        }
        None
    }

    /// Drops the close requests that wait for `id`.
    fn cancel_closes(&mut self, id: u32)
        ensures
            final(self)@ == (SpawnerView { pending: without_id(old(self)@.pending, id), ..old(self)@ }),
    {
        let ghost p = self.pending_closes@;
        let mut kept: Vec<PendingClose> = Vec::new();
        let mut j: usize = 0;
        while j < self.pending_closes.len()
            invariant
                self@ == old(self)@,
                p == old(self)@.pending,
                j <= p.len(),
                kept@ == without_id(p.take(j as int), id),
            decreases p.len() - j,
        {
            let c = self.pending_closes[j];
            proof {
                assert(p.take(j + 1).drop_last() == p.take(j as int));
            }
            if c.notification_id != id {
                kept.push(c);
            }
            j += 1;
        }
        proof {
            assert(p.take(p.len() as int) == p);
        }
        self.pending_closes = kept;
    }

    /// Queues a close request for `id`; it takes effect once the debounce window has
    /// passed, unless a replacement cancels it first.
    pub fn request_close(&mut self, notification_id: u32)
        ensures
            final(self)@ == old(self)@.request_close(notification_id),
    {
        let due: u64 = if self.now > u64::MAX - CLOSE_DEBOUNCE_MS {
            u64::MAX
        } else {
            self.now + CLOSE_DEBOUNCE_MS
        };
        self.pending_closes.push(PendingClose { notification_id, due });
    }

    /// Shows a notification: the pop-up it replaces takes the new content and starts its
    /// timeline over; else a new pop-up under `guid` joins the bottom of the stack.
    /// Returns the key of the pop-up that shows the notification.
    fn place(
        &mut self,
        guid: u128,
        app_name: &String,
        replaces_id: u32,
        notification_id: u32,
        content: WidgetContent,
    ) -> (r: u128)
        requires
            old(self)@.wf(),
        ensures
            final(self)@.wf(),
            (final(self)@, r) == old(self)@.spawn(
                guid,
                app_name@,
                replaces_id,
                notification_id,
                content,
            ),
    {
        let ghost s = self@.widgets;
        let existing = self.get_already_existing_notification(app_name, replaces_id, notification_id);
        if replaces_id != 0 {
            self.cancel_closes(replaces_id);
        }
        match existing {
            Some(k) => {
                let ghost i = choose|i: int|
                    replace_target(s, app_name@, replaces_id, notification_id) == Some(i)
                        && s[i].0 == k && self@.widgets == s.update(
                        i,
                        (k, NotificationWidget { notification_id, ..s[i].1 }),
                    );
                let ghost t1 = self@.widgets;
                proof {
                    lemma_key_index(t1, i);
                }
                let w = map_get_mut(&mut self.widget_list, &k);
                w.reset_timer();
                w.set_content(content);
                proof {
                    let t = self@.widgets;
                    let nw = replaced(s[i].1, notification_id, content);
                    assert(t == s.update(i, (k, nw)));
                    assert(t == t1.update(i, (t1[i].0, nw)));
                    assert forall|q: int| 0 <= q < t1.len() && q != i implies (#[trigger] t1[q]).1.notification_id
                        != nw.notification_id by {
                        assert(t1[i].1.notification_id == notification_id);
                    }
                    lemma_update_distinct(t1, i, nw);
                }
                k
            },
            None => {
                let w = NotificationWidget::new(notification_id, content);
                map_insert(&mut self.widget_list, guid, w);
                proof {
                    if has_key(s, guid) {
                        let i = choose|i: int| 0 <= i < s.len() && s[i].0 == guid && self@.widgets
                            == s.remove(i).push((guid, w));
                        lemma_key_index(s, i);
                    }
                    if has_id(s, notification_id) {
                        let a = choose|a: int| 0 <= a < s.len() && (#[trigger] s[a]).1.notification_id == notification_id;
                        lemma_first_with_id(s, a);
                    }
                    lemma_inserted_distinct(s, guid, w);
                }
                guid
            },
        }
    }

    /// Shows a notification, as `SpawnerView::spawn` says, then restacks the pop-ups.
    /// A new pop-up gets the key `guid`. Returns the key of the pop-up that shows the
    /// notification.
    pub fn spawn_with_guid(
        &mut self,
        guid: u128,
        app_name: &String,
        replaces_id: u32,
        notification_id: u32,
        content: WidgetContent,
    ) -> (r: u128)
        requires
            old(self)@.wf(),
        ensures
            final(self)@.wf(),
            final(self)@ == old(self)@.spawn(guid, app_name@, replaces_id, notification_id, content).0.restack(),
            r == old(self)@.spawn(guid, app_name@, replaces_id, notification_id, content).1,
    {
        let k = self.place(guid, app_name, replaces_id, notification_id, content);
        self.restack();
        k
    }

    /// Takes the notification under `guid` out of `registry` and shows it.
    pub fn on_spawn_notification(&mut self, registry: &mut NotificationRegistry, guid: u128) -> (r:
        Option<u128>)
        requires
            old(self)@.wf(),
        ensures
            final(self)@.wf(),
            final(registry)@ == old(registry)@.remove(guid),
            !old(registry)@.contains_key(guid) ==> r is None && final(self)@ == old(self)@,
            old(registry)@.contains_key(guid) ==> {
                let n = old(registry)@[guid];
                &&& r is Some
                &&& exists|g: u128|
                    !old(self)@.shows(g) && final(self)@ == old(self)@.spawn(
                        g,
                        n.app_name@,
                        n.replaces_id,
                        n.notification_id,
                        content_of(n),
                    ).0.restack() && r.unwrap() == old(self)@.spawn(
                        g,
                        n.app_name@,
                        n.replaces_id,
                        n.notification_id,
                        content_of(n),
                    ).1
            },
    {
        match registry.take(guid) {
            Some(n) => {
                let app_name = n.app_name.clone();
                let replaces_id = n.replaces_id;
                let notification_id = n.notification_id;
                let content = set_notification_contents(n);
                Some(self.spawn_notification(&app_name, replaces_id, notification_id, content))
            },
            None => None,
        }
    }

    /// Records the size the pop-up under `guid` takes once drawn. Returns whether such a
    /// pop-up exists.
    fn resize_widget(&mut self, guid: u128, width: u32, height: u32) -> (r: bool)
        requires
            old(self)@.wf(),
        ensures
            final(self)@.wf(),
            r == old(self)@.shows(guid),
            r ==> final(self)@ == (SpawnerView {
                widgets: old(self)@.widgets.update(
                    key_index(old(self)@.widgets, guid),
                    (
                        guid,
                        NotificationWidget {
                            width,
                            height,
                            ..old(self)@.widgets[key_index(old(self)@.widgets, guid)].1
                        },
                    ),
                ),
                ..old(self)@
            }),
            !r ==> final(self)@ == old(self)@,
    {
        let ghost s = self@.widgets;
        let found = map_get(&self.widget_list, &guid);
        if found.is_none() {
            return false;
        }
        let w = map_get_mut(&mut self.widget_list, &guid);
        w.width = width;
        w.height = height;
        proof {
            let i = choose|i: int| 0 <= i < s.len() && s[i].0 == guid && self@.widgets == s.update(
                i,
                (guid, NotificationWidget { width, height, ..s[i].1 }),
            );
            lemma_key_index(s, i);
            lemma_update_distinct(s, i, NotificationWidget { width, height, ..s[i].1 });
        }
        true
    }

    /// Records the size the pop-up under `guid` takes once drawn, then restacks the
    /// pop-ups. Returns whether such a pop-up exists.
    pub fn set_widget_size(&mut self, guid: u128, width: u32, height: u32) -> (r: bool)
        requires
            old(self)@.wf(),
        ensures
            final(self)@.wf(),
            r == old(self)@.shows(guid),
            r ==> final(self)@ == (SpawnerView {
                widgets: old(self)@.widgets.update(
                    key_index(old(self)@.widgets, guid),
                    (
                        guid,
                        NotificationWidget {
                            width,
                            height,
                            ..old(self)@.widgets[key_index(old(self)@.widgets, guid)].1
                        },
                    ),
                ),
                ..old(self)@
            }).restack(),
            !r ==> final(self)@ == old(self)@,
    {
        let found = self.resize_widget(guid, width, height);
        if found {
            self.restack();
        }
        found
    }

    /// The keys of the visible pop-ups, top to bottom.
    pub fn widget_keys(&self) -> (r: Vec<u128>)
        ensures
            r@ == self@.widgets.map_values(|e: (u128, NotificationWidget)| e.0),
    {
        map_keys(&self.widget_list)
    }

    /// The pop-up under `guid`, if any.
    pub fn widget(&self, guid: u128) -> (r: Option<&NotificationWidget>)
        requires
            self@.wf(),
        ensures
            match r {
                Some(w) => self@.shows(guid) && *w == self@.widgets[key_index(self@.widgets, guid)].1,
                None => !self@.shows(guid),
            },
    {
        let ghost s = self@.widgets;
        let r = map_get(&self.widget_list, &guid);
        proof {
            if let Some(w) = r {
                let i = choose|i: int| 0 <= i < s.len() && s[i].0 == guid && s[i].1 == *w;
                lemma_key_index(s, i);
            }
        }
        r
    }

    /// The number of close requests still waiting.
    pub fn pending_close_count(&self) -> (r: usize)
        ensures
            r == self@.pending.len(),
    {
        self.pending_closes.len()
    }

    /// Shows a notification, as `spawn_with_guid` does, under a fresh random key.
    pub fn spawn_notification(
        &mut self,
        app_name: &String,
        replaces_id: u32,
        notification_id: u32,
        content: WidgetContent,
    ) -> (r: u128)
        requires
            old(self)@.wf(),
        ensures
            final(self)@.wf(),
            exists|guid: u128|
                !old(self)@.shows(guid) && final(self)@ == old(self)@.spawn(
                    guid,
                    app_name@,
                    replaces_id,
                    notification_id,
                    content,
                ).0.restack() && r == old(self)@.spawn(
                    guid,
                    app_name@,
                    replaces_id,
                    notification_id,
                    content,
                ).1,
    {
        let drawn = new_guid();
        let guid = if self.widget(drawn).is_some() {
            self.unused_key()
        } else {
            drawn
        };
        self.spawn_with_guid(guid, app_name, replaces_id, notification_id, content)
    }

    /// The smallest key no pop-up stands under.
    fn unused_key(&self) -> (r: u128)
        requires
            self@.wf(),
        ensures
            !self@.shows(r),
    {
        let keys = map_keys(&self.widget_list);
        let ghost s = self@.widgets;
        let n = keys.len();
        let mut c: u128 = 0;
        loop
            invariant
                s == self@.widgets,
                keys_distinct(s),
                n == s.len(),
                c <= n,
                forall|x: int| 0 <= x < c ==> #[trigger] has_key(s, x as u128) && x <= u128::MAX,
            decreases n - c,
        {
            if map_get(&self.widget_list, &c).is_none() {
                return c;
            }
            proof {
                assert forall|x: int| 0 <= x < c + 1 implies #[trigger] has_key(s, x as u128) && x
                    <= u128::MAX by {
                    if x == c {
                        assert(x as u128 == c);
                    }
                }
                lemma_keys_cover(s, c + 1);
            }
            c = c + 1;
        }
    }

    /// Moves every pop-up below the ones above it, top to bottom with no gap and no
    /// overlap. Returns the width and height the stack takes.
    fn restack(&mut self) -> (r: (u32, u32))
        requires
            old(self)@.wf(),
        ensures
            final(self)@ == (SpawnerView { widgets: restacked(old(self)@.widgets), ..old(self)@ }),
            final(self)@.wf(),
            r == (max_width(old(self)@.widgets), clamp_extent(stack_height(old(self)@.widgets))),
    {
        let keys = map_keys(&self.widget_list);
        let ghost s = self@.widgets;
        let mut acc: u64 = 0;
        let mut biggest_width: u32 = 0;
        let mut j: usize = 0;
        while j < keys.len()
            invariant
                s == old(self)@.widgets,
                keys_distinct(s),
                ids_distinct(s),
                keys@ == s.map_values(|e: (u128, NotificationWidget)| e.0),
                j <= s.len(),
                self@.widgets.len() == s.len(),
                self@ == (SpawnerView { widgets: self@.widgets, ..old(self)@ }),
                same_keys_and_ids(s, self@.widgets),
                forall|q: int| 0 <= q < j ==> #[trigger] self@.widgets[q] == restacked(s)[q],
                forall|q: int| j <= q < s.len() ==> #[trigger] self@.widgets[q] == s[q],
                acc == clamp_extent(stack_height(s.take(j as int))),
                biggest_width == max_width(s.take(j as int)),
            decreases s.len() - j,
        {
            let k = keys[j];
            let ghost cur = self@.widgets;
            proof {
                lemma_same_keys_and_ids(s, cur);
                assert(cur[j as int].0 == k);
                assert(has_key(cur, k));
                assert(s.take(j + 1).drop_last() == s.take(j as int));
                assert(s.take(j + 1).last() == s[j as int]);
                assert(stack_height(s.take(j + 1)) == stack_height(s.take(j as int)) + s[j as int].1.height);
                lemma_stack_height_nonneg(s.take(j as int));
            }
            let w = map_get_mut(&mut self.widget_list, &k);
            w.animate_entry(acc as u32);
            let h = w.height;
            let wd = w.width;
            proof {
                let t = self@.widgets;
                assert(t == cur.update(j as int, (k, NotificationWidget { offset: acc as u32, ..s[j as int].1 })));
            }
            if biggest_width < wd {
                biggest_width = wd;
            }
            acc = if acc + h as u64 > MAX_STACK_EXTENT as u64 {
                MAX_STACK_EXTENT as u64
            } else {
                acc + h as u64
            };
            j += 1;
        }
        proof {
            assert(s.take(s.len() as int) == s);
            assert(self@.widgets =~= restacked(s));
            lemma_same_keys_and_ids(s, self@.widgets);
        }
        (biggest_width, acc as u32)
    }

    /// Restacks the pop-ups and returns the width and height the window needs: the
    /// widest pop-up, and the stack's height or the lowest of `current_bottoms`, the bottom
    /// edges of pop-ups still sliding to their place, whichever is larger.
    pub fn on_reorder(&mut self, current_bottoms: &Vec<u32>) -> (r: (u32, u32))
        requires
            old(self)@.wf(),
        ensures
            final(self)@ == old(self)@.restack(),
            final(self)@.wf(),
            r.0 == max_width(old(self)@.widgets),
            r.1 == max_u32(clamp_extent(stack_height(old(self)@.widgets)), max_of(current_bottoms@)),
    {
        let (width, height) = self.restack();
        let mut lowest: u32 = 0;
        let mut i: usize = 0;
        while i < current_bottoms.len()
            invariant
                i <= current_bottoms@.len(),
                lowest == max_of(current_bottoms@.take(i as int)),
            decreases current_bottoms.len() - i,
        {
            proof {
                assert(current_bottoms@.take(i + 1).drop_last() == current_bottoms@.take(i as int));
            }
            if lowest < current_bottoms[i] {
                lowest = current_bottoms[i];
            }
            i += 1;
        }
        proof {
            assert(current_bottoms@.take(current_bottoms@.len() as int) == current_bottoms@);
        }
        (width, if height < lowest { lowest } else { height })
    }

    /// The periodic poll: each pop-up is frozen while the freeze key is held, and hovered
    /// while the cursor, at (`cursor_x`, `cursor_y`) from the top of the stack, is on it.
    pub fn check_hover(&mut self, freeze_key_held: bool, cursor_x: i64, cursor_y: i64)
        requires
            old(self)@.wf(),
        ensures
            final(self)@ == (SpawnerView {
                widgets: old(self)@.widgets.map_values(
                    |e: (u128, NotificationWidget)|
                        (e.0, hover_checked(e.1, freeze_key_held, cursor_x as int, cursor_y as int)),
                ),
                ..old(self)@
            }),
            final(self)@.wf(),
    {
        let keys = map_keys(&self.widget_list);
        let ghost s = self@.widgets;
        let ghost f = |e: (u128, NotificationWidget)|
            (e.0, hover_checked(e.1, freeze_key_held, cursor_x as int, cursor_y as int));
        let mut j: usize = 0;
        while j < keys.len()
            invariant
                s == old(self)@.widgets,
                keys_distinct(s),
                ids_distinct(s),
                keys@ == s.map_values(|e: (u128, NotificationWidget)| e.0),
                j <= s.len(),
                self@.widgets.len() == s.len(),
                self@ == (SpawnerView { widgets: self@.widgets, ..old(self)@ }),
                f == (|e: (u128, NotificationWidget)|
                    (e.0, hover_checked(e.1, freeze_key_held, cursor_x as int, cursor_y as int))),
                same_keys_and_ids(s, self@.widgets),
                forall|q: int| 0 <= q < j ==> #[trigger] self@.widgets[q] == f(s[q]),
                forall|q: int| j <= q < s.len() ==> #[trigger] self@.widgets[q] == s[q],
            decreases s.len() - j,
        {
            let k = keys[j];
            let ghost cur = self@.widgets;
            proof {
                lemma_same_keys_and_ids(s, cur);
                assert(cur[j as int].0 == k);
                assert(has_key(cur, k));
            }
            let w = map_get_mut(&mut self.widget_list, &k);
            w.check_hover(freeze_key_held, cursor_x, cursor_y);
            proof {
                let t = self@.widgets;
                assert(t == cur.update(j as int, f(s[j as int])));
            }
            j += 1;
        }
        proof {
            assert(self@.widgets =~= s.map_values(f));
            lemma_same_keys_and_ids(s, self@.widgets);
        }
    }

    /// Lets `ms` milliseconds of every pop-up's timeline run; frozen pop-ups wait.
    pub fn advance_timers(&mut self, ms: u32)
        requires
            old(self)@.wf(),
        ensures
            final(self)@ == (SpawnerView {
                widgets: old(self)@.widgets.map_values(
                    |e: (u128, NotificationWidget)| (e.0, advanced(e.1, ms, old(self)@.timings)),
                ),
                ..old(self)@
            }),
            final(self)@.wf(),
    {
        let keys = map_keys(&self.widget_list);
        let ghost s = self@.widgets;
        let t = self.timings;
        let ghost f = |e: (u128, NotificationWidget)| (e.0, advanced(e.1, ms, t));
        let mut j: usize = 0;
        while j < keys.len()
            invariant
                s == old(self)@.widgets,
                t == old(self)@.timings,
                keys_distinct(s),
                ids_distinct(s),
                keys@ == s.map_values(|e: (u128, NotificationWidget)| e.0),
                j <= s.len(),
                self@.widgets.len() == s.len(),
                self@ == (SpawnerView { widgets: self@.widgets, ..old(self)@ }),
                f == (|e: (u128, NotificationWidget)| (e.0, advanced(e.1, ms, t))),
                same_keys_and_ids(s, self@.widgets),
                forall|q: int| 0 <= q < j ==> #[trigger] self@.widgets[q] == f(s[q]),
                forall|q: int| j <= q < s.len() ==> #[trigger] self@.widgets[q] == s[q],
            decreases s.len() - j,
        {
            let k = keys[j];
            let ghost cur = self@.widgets;
            proof {
                lemma_same_keys_and_ids(s, cur);
                assert(cur[j as int].0 == k);
                assert(has_key(cur, k));
            }
            let w = map_get_mut(&mut self.widget_list, &k);
            w.advance(ms, t);
            proof {
                let u = self@.widgets;
                assert(u == cur.update(j as int, f(s[j as int])));
            }
            j += 1;
        }
        proof {
            assert(self@.widgets =~= s.map_values(f));
            lemma_same_keys_and_ids(s, self@.widgets);
        }
    }

    /// Closes the pop-up under `guid` and reports it with `reason`.
    fn close_widget(&mut self, guid: u128, reason: u32) -> (r: Option<DbusSignal>)
        requires
            old(self)@.wf(),
        ensures
            final(self)@.wf(),
            (final(self)@, r) == old(self)@.close(guid, reason),
    {
        let ghost s = self@.widgets;
        let removed = map_remove(&mut self.widget_list, &guid);
        match removed {
            Some(w) => {
                proof {
                    let i = choose|i: int| 0 <= i < s.len() && s[i].0 == guid && s[i].1 == w
                        && self@.widgets == s.remove(i);
                    lemma_key_index(s, i);
                    lemma_remove_distinct(s, i);
                }
                Some(DbusSignal::NotificationClosed { notification_id: w.notification_id, reason })
            },
            None => None,
        }
    }

    /// The sender closed notification `id`: its first pop-up closes at once.
    fn external_close_now(&mut self, notification_id: u32) -> (r: Option<DbusSignal>)
        requires
            old(self)@.wf(),
        ensures
            final(self)@.wf(),
            (final(self)@, r) == old(self)@.external_close(notification_id),
    {
        let keys = map_keys(&self.widget_list);
        let ghost s = self@.widgets;
        let mut j: usize = 0;
        while j < keys.len()
            invariant
                self@ == old(self)@,
                old(self)@.wf(),
                s == old(self)@.widgets,
                keys@ == s.map_values(|e: (u128, NotificationWidget)| e.0),
                j <= keys.len(),
                forall|q: int| 0 <= q < j ==> (#[trigger] s[q].1).notification_id != notification_id,
            decreases keys.len() - j,
        {
            let k = keys[j];
            assert(s[j as int].0 == k);
            let wo = map_get(&self.widget_list, &k);
            assert(has_key(s, k));
            let w = wo.unwrap();
            proof {
                let i = choose|i: int| 0 <= i < s.len() && s[i].0 == k && s[i].1 == *w;
                assert(i == j);
            }
            if w.notification_id == notification_id {
                proof {
                    assert(is_first_with_id(s, j as int, notification_id));
                    let i = choose|i: int| is_first_with_id(s, i, notification_id);
                    assert(i == j) by {
                        if i < j {
                        } else if j < i {
                            assert(s[j as int].1.notification_id != notification_id);
                        }
                    }
                }
                return self.close_widget(k, CLOSE_REASON_CLOSED);
            }
            j += 1;
        }
        None
    }

    /// Closes the pop-up under `guid`, reports it with `reason`, and restacks the rest.
    pub fn on_widget_close(&mut self, guid: u128, reason: u32) -> (r: Option<DbusSignal>)
        requires
            old(self)@.wf(),
        ensures
            final(self)@.wf(),
            final(self)@ == old(self)@.close(guid, reason).0.restack(),
            r == old(self)@.close(guid, reason).1,
    {
        let r = self.close_widget(guid, reason);
        self.restack();
        r
    }

    /// The sender closed notification `notification_id`: its first pop-up closes at once,
    /// and the rest are restacked.
    pub fn on_external_close(&mut self, notification_id: u32) -> (r: Option<DbusSignal>)
        requires
            old(self)@.wf(),
        ensures
            final(self)@.wf(),
            final(self)@ == old(self)@.external_close(notification_id).0.restack(),
            r == old(self)@.external_close(notification_id).1,
    {
        let r = self.external_close_now(notification_id);
        self.restack();
        r
    }

    /// The user clicked the action surface of the pop-up under `guid`: the action is
    /// reported, then the pop-up closes as dismissed.
    pub fn on_button_clicked(&mut self, guid: u128) -> (r: Vec<DbusSignal>)
        requires
            old(self)@.wf(),
        ensures
            final(self)@.wf(),
            final(self)@ == old(self)@.close(guid, CLOSE_REASON_DISMISSED).0.restack(),
            old(self)@.shows(guid) ==> r@ == seq![
                DbusSignal::ActionInvoked {
                    notification_id: old(self)@.widgets[key_index(old(self)@.widgets, guid)].1.notification_id as i32,
                },
                old(self)@.close(guid, CLOSE_REASON_DISMISSED).1.unwrap(),
            ],
            !old(self)@.shows(guid) ==> r@.len() == 0,
    {
        let mut signals: Vec<DbusSignal> = Vec::new();
        let ghost s = self@.widgets;
        let found = map_get(&self.widget_list, &guid);
        match found {
            Some(w) => {
                proof {
                    let i = choose|i: int| 0 <= i < s.len() && s[i].0 == guid && s[i].1 == *w;
                    lemma_key_index(s, i);
                }
                signals.push(DbusSignal::ActionInvoked { notification_id: w.notification_id as i32 });
            },
            None => {},
        }
        let closed = self.close_widget(guid, CLOSE_REASON_DISMISSED);
        match closed {
            Some(c) => signals.push(c),
            None => {},
        }
        self.restack();
        signals
    }

    /// Closes, as expired, the pop-ups whose timeline has run out.
    fn expire_finished(&mut self) -> (r: Vec<DbusSignal>)
        requires
            old(self)@.wf(),
        ensures
            final(self)@ == (SpawnerView {
                widgets: unfinished(old(self)@.widgets, old(self)@.timings),
                ..old(self)@
            }),
            final(self)@.wf(),
            r@ == finished_signals(old(self)@.widgets, old(self)@.timings),
    {
        let keys = map_keys(&self.widget_list);
        let ghost s = self@.widgets;
        let t = self.timings;
        let mut kept = map_new();
        let mut signals: Vec<DbusSignal> = Vec::new();
        let mut j: usize = 0;
        while j < keys.len()
            invariant
                s == old(self)@.widgets,
                t == old(self)@.timings,
                keys_distinct(s),
                ids_distinct(s),
                keys@ == s.map_values(|e: (u128, NotificationWidget)| e.0),
                j <= s.len(),
                self@ == (SpawnerView { widgets: self@.widgets, ..old(self)@ }),
                self@.widgets == s.skip(j as int),
                widget_entries(kept) == unfinished(s.take(j as int), t),
                keys_distinct(widget_entries(kept)),
                ids_distinct(widget_entries(kept)),
                signals@ == finished_signals(s.take(j as int), t),
            decreases s.len() - j,
        {
            let k = keys[j];
            let ghost rest = self@.widgets;
            proof {
                assert(rest[0] == s[j as int]);
                assert(has_key(rest, k));
                assert(s.take(j + 1).drop_last() == s.take(j as int));
                assert(s.take(j + 1).last() == s[j as int]);
            }
            let removed = map_remove(&mut self.widget_list, &k);
            let w = removed.unwrap();
            proof {
                let i = choose|i: int| 0 <= i < rest.len() && rest[i].0 == k && rest[i].1 == w
                    && self@.widgets == rest.remove(i);
                assert(i == 0) by {
                    if i != 0 {
                        assert(rest[i] == s[j + i]);
                    }
                }
                assert(self@.widgets =~= s.skip(j + 1));
            }
            if w.current_phase(t) == WidgetPhase::Finished {
                signals.push(
                    DbusSignal::NotificationClosed {
                        notification_id: w.notification_id,
                        reason: CLOSE_REASON_EXPIRED,
                    },
                );
            } else {
                proof {
                    let pre = s.take(j as int);
                    let u = unfinished(pre, t);
                    lemma_unfinished_sub(pre, t);
                    assert(w == s[j as int].1);
                    if has_key(u, k) {
                        let a = choose|a: int| 0 <= a < u.len() && u[a].0 == k;
                        let b = choose|b: int| 0 <= b < pre.len() && pre[b] == u[a];
                        assert(s[b].0 == s[j as int].0);
                    }
                    if has_id(u, w.notification_id) {
                        let a = choose|a: int| 0 <= a < u.len() && (#[trigger] u[a]).1.notification_id
                            == w.notification_id;
                        let b = choose|b: int| 0 <= b < pre.len() && pre[b] == u[a];
                        assert(s[b].1.notification_id == s[j as int].1.notification_id);
                    }
                    lemma_push_distinct(u, k, w);
                }
                map_insert(&mut kept, k, w);
            }
            j += 1;
        }
        proof {
            assert(s.take(s.len() as int) == s);
        }
        self.widget_list = kept;
        signals
    }

    /// Lets the clock run `ms` milliseconds: due close requests take effect, timelines
    /// run on, and pop-ups whose timeline ran out close as expired; the rest are
    /// restacked. Returns the signals to emit, in order.
    pub fn tick(&mut self, ms: u32) -> (r: Vec<DbusSignal>)
        requires
            old(self)@.wf(),
        ensures
            final(self)@.wf(),
            final(self)@ == old(self)@.tick(ms).0.restack(),
            r@ == old(self)@.tick(ms).1,
    {
        let now: u64 = if self.now > u64::MAX - ms as u64 {
            u64::MAX
        } else {
            self.now + ms as u64
        };
        self.now = now;
        let ghost p = self.pending_closes@;
        let mut due: Vec<u32> = Vec::new();
        let mut waiting: Vec<PendingClose> = Vec::new();
        let mut j: usize = 0;
        while j < self.pending_closes.len()
            invariant
                p == self.pending_closes@,
                j <= p.len(),
                due@ == due_ids(p.take(j as int), now),
                waiting@ == not_due(p.take(j as int), now),
            decreases p.len() - j,
        {
            let c = self.pending_closes[j];
            proof {
                assert(p.take(j + 1).drop_last() == p.take(j as int));
            }
            if c.due <= now {
                due.push(c.notification_id);
            } else {
                waiting.push(c);
            }
            j += 1;
        }
        proof {
            assert(p.take(p.len() as int) == p);
        }
        self.pending_closes = waiting;
        let ghost v1 = self@;
        let mut signals: Vec<DbusSignal> = Vec::new();
        let mut d: usize = 0;
        while d < due.len()
            invariant
                v1.wf(),
                d <= due.len(),
                (self@, signals@) == v1.close_ids(due@.take(d as int)),
                self@.wf(),
            decreases due.len() - d,
        {
            proof {
                assert(due@.take(d + 1).drop_last() == due@.take(d as int));
                assert(due@.take(d + 1).last() == due@[d as int]);
            }
            let o = self.external_close_now(due[d]);
            match o {
                Some(x) => signals.push(x),
                None => {},
            }
            d += 1;
        }
        proof {
            assert(due@.take(due@.len() as int) == due@);
        }
        self.advance_timers(ms);
        let mut expired = self.expire_finished();
        signals.append(&mut expired);
        self.restack();
        signals
    }
}

/// Relies on uuid's Uuid::new_v4, read as an integer: a random identifier.
#[verifier::external_body]
pub(crate) fn new_guid() -> (r: u128) {
    uuid::Uuid::new_v4().as_u128()
}

} // verus!
