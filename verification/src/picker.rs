//! The highlight picker: every five seconds it marks one changed key, picked
//! at random.

use crate::snapshot::changed;
use crate::snapshot::changed_keys;
use crate::snapshot::lemma_changed_keys_are_changed;
use crate::snapshot::Snapshots;
use crate::table::distinct_keys;
use crate::table::Entry;
use rand::seq::SliceRandom;
use vstd::prelude::*;

verus! {

/// The time between two hops of the highlight, in milliseconds.
pub const HOP_INTERVAL_MS: u64 = 5000;

/// The time from `last_hop_time` to `now`, and 0 where the clock went back.
pub open spec fn elapsed(last_hop_time: u64, now: u64) -> int {
    if now >= last_hop_time {
        now - last_hop_time
    } else {
        0
    }
}

/// Whether the highlight is to hop at `now`.
pub open spec fn hop_due(last_hop_time: u64, now: u64) -> bool {
    elapsed(last_hop_time, now) >= HOP_INTERVAL_MS
}

/// How a call at `now` takes the picker from `before` to `after`, the tables
/// being `baseline` and `current`.
///
/// Before five seconds have passed since the last hop, nothing changes. From
/// then on the time of the last hop becomes `now`; with no changed key the
/// mark stays as it is, else one of the changed keys is marked.
pub open spec fn hopped(
    before: PickerView,
    baseline: Seq<Entry>,
    current: Seq<Entry>,
    now: u64,
    after: PickerView,
) -> bool {
    if !hop_due(before.last_hop_time, now) {
        after == before
    } else if changed_keys(baseline, current).len() == 0 {
        after == (PickerView { last_hop_time: now, highlight_key: before.highlight_key })
    } else {
        &&& after.last_hop_time == now
        &&& after.highlight_key matches Some(key)
        &&& changed_keys(baseline, current).contains(key)
    }
}

/// After a hop that was due, the marked key is a changed key wherever there
/// is a changed key at all.
pub proof fn lemma_hop_marks_a_changed_key(
    before: PickerView,
    baseline: Seq<Entry>,
    current: Seq<Entry>,
    now: u64,
    after: PickerView,
)
    requires
        distinct_keys(current),
        hopped(before, baseline, current, now, after),
        hop_due(before.last_hop_time, now),
        changed_keys(baseline, current).len() > 0,
    ensures
        after.highlight_key matches Some(key) && changed(baseline, current, key),
{
    lemma_changed_keys_are_changed(baseline, current, after.highlight_key->0);
}

/// With no changed key, a hop that was due sets no mark and still starts the
/// next interval.
pub proof fn lemma_hop_without_changes(
    before: PickerView,
    baseline: Seq<Entry>,
    current: Seq<Entry>,
    now: u64,
    after: PickerView,
)
    requires
        hopped(before, baseline, current, now, after),
        hop_due(before.last_hop_time, now),
        changed_keys(baseline, current).len() == 0,
    ensures
        after.highlight_key == before.highlight_key,
        after.last_hop_time == now,
{
}

/// `SliceRandom::choose` of `rand`, with the generator that
/// `rand::thread_rng` hands out. Trusted: it hands out one of the elements,
/// and `None` only for an empty slice. Which element comes is left open; the
/// generator itself gives up only where the operating system has no
/// randomness to seed it with.
#[verifier::external_body]
fn choose_one<'a>(keys: &'a Vec<String>) -> (choice: Option<&'a String>)
    ensures
        match choice {
            Some(key) => keys@.contains(*key),
            None => keys@.len() == 0,
        },
{
    keys.choose(&mut rand::thread_rng())
}

/// The picker's state as mathematics sees it.
pub struct PickerView {
    pub last_hop_time: u64,
    pub highlight_key: Option<Seq<char>>,
}

/// The key that is marked, if any, and the time of the last hop in
/// milliseconds on the caller's clock.
pub struct HighlightPicker {
    last_hop_time: u64,
    highlight_key: Option<String>,
}

impl View for HighlightPicker {
    type V = PickerView;

    closed spec fn view(&self) -> PickerView {
        PickerView {
            last_hop_time: self.last_hop_time,
            highlight_key: match self.highlight_key {
                Some(key) => Some(key@),
                None => None,
            },
        }
    }
}

impl HighlightPicker {
    /// A picker that marks nothing and counts its first interval from `now`.
    pub fn new(now: u64) -> (picker: HighlightPicker)
        ensures
            picker@.last_hop_time == now,
            picker@.highlight_key is None,
    {
        HighlightPicker { last_hop_time: now, highlight_key: None }
    }

    /// The marked key.
    pub fn highlight_key(&self) -> (key: Option<&String>)
        ensures
            match key {
                Some(k) => self@.highlight_key == Some(k@),
                None => self@.highlight_key is None,
            },
    {
        self.highlight_key.as_ref()
    }

    /// The time of the last hop.
    pub fn last_hop_time(&self) -> (time: u64)
        ensures
            time == self@.last_hop_time,
    {
        self.last_hop_time
    }

    /// Whether five seconds have passed since the last hop.
    pub fn is_due(&self, now: u64) -> (due: bool)
        ensures
            due == hop_due(self@.last_hop_time, now),
    {
        now >= self.last_hop_time && now - self.last_hop_time >= HOP_INTERVAL_MS
    }

    /// Ends a hop at `now` with the key that was picked, if one was: the key
    /// becomes the marked one, and with `None` the mark stays as it is. The
    /// interval starts again either way.
    pub fn hop_to(&mut self, now: u64, choice: Option<&String>)
        ensures
            final(self)@.last_hop_time == now,
            final(self)@.highlight_key == match choice {
                Some(key) => Some(key@),
                None => old(self)@.highlight_key,
            },
    {
        match choice {
            Some(key) => {
                self.highlight_key = Some(key.clone());
            },
            None => {},
        }
        self.last_hop_time = now;
    }

    /// Lets the highlight hop where five seconds have passed since the last
    /// hop, and does nothing before that.
    ///
    /// A hop picks one of the changed keys at random and marks it. With no
    /// changed key the mark stays as it is. Either way the next interval
    /// starts at `now`.
    pub fn maybe_hop(&mut self, store: &Snapshots, now: u64)
        ensures
            hopped(old(self)@, store@.baseline, store@.current, now, final(self)@),
            final(self)@.highlight_key != old(self)@.highlight_key ==> (final(self)@.highlight_key matches Some(key) && changed(store@.baseline, store@.current, key)),
    {
        if self.is_due(now) {
            let keys = store.changed_keys();
            let choice = choose_one(&keys);
            proof {
                match choice {
                    Some(key) => {
                        let i = choose|i: int| 0 <= i < keys@.len() && keys@[i] == *key;
                        assert(keys.deep_view()[i] == key@);
                    },
                    None => {},
                }
            }
            self.hop_to(now, choice);
        }
    }
}

} // verus!
