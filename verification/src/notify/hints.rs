//! What the daemon makes of a `Notify` call: the notification it builds from
//! the caller's arguments and hints.

use vstd::prelude::*;
use crate::notify::notification::{ImageData, Notification, Urgency, urgency_of, is_fresh};
use crate::text::str_eq;

verus! {

/// A hint value, with the kinds of D-Bus values the daemon reads.
#[derive(Debug)]
pub enum HintValue {
    Byte(u8),
    Boolean(bool),
    Int32(i32),
    Text(String),
    Structure(Vec<HintValue>),
    Array(Vec<HintValue>),
    /// A value wrapped in a variant.
    Variant(Box<HintValue>),
    /// Any other kind of value.
    Other,
}

/// The bytes among the elements of an array, in order; other elements are
/// skipped.
pub open spec fn bytes_of(elems: Seq<HintValue>) -> Seq<u8>
    decreases elems.len(),
{
    if elems.len() == 0 {
        seq![]
    } else {
        let rest = bytes_of(elems.drop_last());
        match elems.last() {
            HintValue::Byte(b) => rest.push(b),
            _ => rest,
        }
    }
}

/// The fields of image data, as `(iiibiiay)` holds them: width, height,
/// rowstride, has_alpha, bits per sample, channels and the bytes.
pub type ImageFields = (i32, i32, i32, bool, i32, i32, Seq<u8>);

/// The image data a hint value holds: a structure of at least seven
/// fields, whose first seven are three 32-bit integers, a boolean, two
/// 32-bit integers and an array; a variant is looked through.
pub open spec fn image_of(v: HintValue) -> Option<ImageFields>
    decreases v,
{
    match v {
        HintValue::Variant(inner) => image_of(*inner),
        HintValue::Structure(fields) => {
            let f = fields@;
            if f.len() >= 7 && f[0] is Int32 && f[1] is Int32 && f[2] is Int32 && f[3] is Boolean
                && f[4] is Int32 && f[5] is Int32 && f[6] is Array {
                Some(
                    (
                        f[0]->Int32_0,
                        f[1]->Int32_0,
                        f[2]->Int32_0,
                        f[3]->Boolean_0,
                        f[4]->Int32_0,
                        f[5]->Int32_0,
                        bytes_of(f[6]->Array_0@),
                    ),
                )
            } else {
                None
            }
        },
        _ => None,
    }
}

/// The image data holds exactly the given fields.
pub open spec fn image_has(d: ImageData, f: ImageFields) -> bool {
    &&& d.width == f.0
    &&& d.height == f.1
    &&& d.rowstride == f.2
    &&& d.has_alpha == f.3
    &&& d.bits_per_sample == f.4
    &&& d.channels == f.5
    &&& d.data@ == f.6
}

fn bytes_in(elems: &Vec<HintValue>) -> (r: Vec<u8>)
    ensures
        r@ == bytes_of(elems@),
{
    let mut r: Vec<u8> = Vec::new();
    let mut i: usize = 0;
    while i < elems.len()
        invariant
            i <= elems@.len(),
            r@ == bytes_of(elems@.take(i as int)),
        decreases elems@.len() - i,
    {
        assert(elems@.take(i + 1).drop_last() =~= elems@.take(i as int));
        match &elems[i] {
            HintValue::Byte(b) => {
                r.push(*b);
            },
            _ => {},
        }
        i += 1;
    }
    assert(elems@.take(i as int) =~= elems@);
    r
}

/// Reads image data from a hint value.
pub fn parse_image_data(value: &HintValue) -> (r: Option<ImageData>)
    ensures
        r matches Some(d) ==> image_of(*value) matches Some(f) && image_has(d, f),
        r is None ==> image_of(*value) is None,
    decreases value,
{
    match value {
        HintValue::Variant(inner) => parse_image_data(inner),
        HintValue::Structure(fields) => {
            if fields.len() < 7 {
                return None;
            }
            let width = match &fields[0] {
                HintValue::Int32(v) => *v,
                _ => return None,
            };
            let height = match &fields[1] {
                HintValue::Int32(v) => *v,
                _ => return None,
            };
            let rowstride = match &fields[2] {
                HintValue::Int32(v) => *v,
                _ => return None,
            };
            let has_alpha = match &fields[3] {
                HintValue::Boolean(v) => *v,
                _ => return None,
            };
            let bits_per_sample = match &fields[4] {
                HintValue::Int32(v) => *v,
                _ => return None,
            };
            let channels = match &fields[5] {
                HintValue::Int32(v) => *v,
                _ => return None,
            };
            let data = match &fields[6] {
                HintValue::Array(elems) => bytes_in(elems),
                _ => return None,
            };
            Some(ImageData { width, height, rowstride, has_alpha, bits_per_sample, channels, data })
        },
        _ => None,
    }
}


/// The hints the daemon reads.
#[derive(Debug, Clone, Copy, PartialEq, Eq, Structural)]
pub enum HintKey {
    Urgency,
    Category,
    DesktopEntry,
    Transient,
    Resident,
    Progress,
    ImagePath,
    Image,
    Unknown,
}

/// Which hint a key names.
pub open spec fn hint_key(k: Seq<char>) -> HintKey {
    if k == "urgency"@ {
        HintKey::Urgency
    } else if k == "category"@ {
        HintKey::Category
    } else if k == "desktop-entry"@ {
        HintKey::DesktopEntry
    } else if k == "transient"@ {
        HintKey::Transient
    } else if k == "resident"@ {
        HintKey::Resident
    } else if k == "value"@ || k == "x-canonical-private-synchronous"@ {
        HintKey::Progress
    } else if k == "image-path"@ || k == "image_path"@ {
        HintKey::ImagePath
    } else if k == "icon_data"@ || k == "image-data"@ || k == "image_data"@ {
        HintKey::Image
    } else {
        HintKey::Unknown
    }
}

/// Which hint a key names.
pub fn classify_hint(k: &str) -> (r: HintKey)
    ensures
        r == hint_key(k@),
{
    if str_eq(k, "urgency") {
        HintKey::Urgency
    } else if str_eq(k, "category") {
        HintKey::Category
    } else if str_eq(k, "desktop-entry") {
        HintKey::DesktopEntry
    } else if str_eq(k, "transient") {
        HintKey::Transient
    } else if str_eq(k, "resident") {
        HintKey::Resident
    } else if str_eq(k, "value") || str_eq(k, "x-canonical-private-synchronous") {
        HintKey::Progress
    } else if str_eq(k, "image-path") || str_eq(k, "image_path") {
        HintKey::ImagePath
    } else if str_eq(k, "icon_data") || str_eq(k, "image-data") || str_eq(k, "image_data") {
        HintKey::Image
    } else {
        HintKey::Unknown
    }
}

/// The text of the last hint of kind `h` that holds text.
pub open spec fn last_text(hs: Seq<(String, HintValue)>, h: HintKey) -> Option<Seq<char>>
    decreases hs.len(),
{
    if hs.len() == 0 {
        None
    } else if hint_key(hs.last().0@) == h && hs.last().1 is Text {
        Some(hs.last().1->Text_0@)
    } else {
        last_text(hs.drop_last(), h)
    }
}

/// The boolean of the last hint of kind `h` that holds a boolean.
pub open spec fn last_bool(hs: Seq<(String, HintValue)>, h: HintKey) -> Option<bool>
    decreases hs.len(),
{
    if hs.len() == 0 {
        None
    } else if hint_key(hs.last().0@) == h && hs.last().1 is Boolean {
        Some(hs.last().1->Boolean_0)
    } else {
        last_bool(hs.drop_last(), h)
    }
}

/// The byte of the last hint of kind `h` that holds a byte.
pub open spec fn last_byte(hs: Seq<(String, HintValue)>, h: HintKey) -> Option<u8>
    decreases hs.len(),
{
    if hs.len() == 0 {
        None
    } else if hint_key(hs.last().0@) == h && hs.last().1 is Byte {
        Some(hs.last().1->Byte_0)
    } else {
        last_byte(hs.drop_last(), h)
    }
}

/// The integer of the last hint of kind `h` that holds a 32-bit integer.
pub open spec fn last_int(hs: Seq<(String, HintValue)>, h: HintKey) -> Option<i32>
    decreases hs.len(),
{
    if hs.len() == 0 {
        None
    } else if hint_key(hs.last().0@) == h && hs.last().1 is Int32 {
        Some(hs.last().1->Int32_0)
    } else {
        last_int(hs.drop_last(), h)
    }
}

/// The image of the last image hint that holds one.
pub open spec fn last_image(hs: Seq<(String, HintValue)>) -> Option<ImageFields>
    decreases hs.len(),
{
    if hs.len() == 0 {
        None
    } else if hint_key(hs.last().0@) == HintKey::Image && image_of(hs.last().1) is Some {
        image_of(hs.last().1)
    } else {
        last_image(hs.drop_last())
    }
}

/// The text an optional string holds.
pub open spec fn opt_view(o: Option<String>) -> Option<Seq<char>> {
    match o {
        Some(s) => Some(s@),
        None => None,
    }
}

/// `v` clamped to `0..=100`.
pub open spec fn clamp_percent(v: i32) -> i32 {
    if v < 0 {
        0
    } else if v > 100 {
        100
    } else {
        v
    }
}

/// The notification's fields that the hints set are as the last readable
/// hint of each kind gives them; without one, as a fresh notification has
/// them.
pub open spec fn hints_applied(n: Notification, hs: Seq<(String, HintValue)>) -> bool {
    &&& n.urgency == (match last_byte(hs, HintKey::Urgency) {
        Some(b) => urgency_of(b),
        None => Urgency::Normal,
    })
    &&& opt_view(n.category) == last_text(hs, HintKey::Category)
    &&& opt_view(n.desktop_entry) == last_text(hs, HintKey::DesktopEntry)
    &&& n.transient == (match last_bool(hs, HintKey::Transient) {
        Some(b) => b,
        None => false,
    })
    &&& n.resident == (match last_bool(hs, HintKey::Resident) {
        Some(b) => b,
        None => false,
    })
    &&& n.progress == (match last_int(hs, HintKey::Progress) {
        Some(v) => Some(clamp_percent(v)),
        None => None,
    })
    &&& opt_view(n.image_path) == last_text(hs, HintKey::ImagePath)
    &&& (match last_image(hs) {
        Some(f) => n.image_data matches Some(d) && image_has(d, f),
        None => n.image_data is None,
    })
}

/// The actions, given as a flat list of keys and labels, paired up; an odd
/// last entry is dropped.
pub open spec fn actions_paired(pairs: Seq<(String, String)>, flat: Seq<String>) -> bool {
    &&& pairs.len() == flat.len() / 2
    &&& forall|i: int|
        0 <= i < pairs.len() ==> (#[trigger] pairs[i]).0@ == flat[2 * i]@ && pairs[i].1@ == flat[2
            * i + 1]@
}

fn pair_actions(actions: &Vec<String>) -> (r: Vec<(String, String)>)
    ensures
        actions_paired(r@, actions@),
{
    let mut r: Vec<(String, String)> = Vec::new();
    let mut i: usize = 0;
    while i + 1 < actions.len()
        invariant
            i % 2 == 0,
            i <= actions@.len(),
            r@.len() == i / 2,
            forall|j: int|
                0 <= j < r@.len() ==> (#[trigger] r@[j]).0@ == actions@[2 * j]@ && r@[j].1@
                    == actions@[2 * j + 1]@,
        decreases actions@.len() - i,
    {
        let key = actions[i].clone();
        let label = actions[i + 1].clone();
        r.push((key, label));
        i += 2;
    }
    r
}

/// Applies the hints, in order, to a fresh notification.
fn apply_hints(n: &mut Notification, hints: &Vec<(String, HintValue)>)
    requires
        is_fresh(*old(n), old(n).id, old(n).app_name@, old(n).app_icon@, old(n).summary@, old(n).body@),
    ensures
        hints_applied(*final(n), hints@),
        final(n).id == old(n).id,
        final(n).app_name == old(n).app_name,
        final(n).app_icon == old(n).app_icon,
        final(n).summary == old(n).summary,
        final(n).body == old(n).body,
        final(n).timestamp == old(n).timestamp,
        final(n).dismissed == old(n).dismissed,
        final(n).expire_timeout == old(n).expire_timeout,
{
    let mut i: usize = 0;
    while i < hints.len()
        invariant
            i <= hints@.len(),
            hints_applied(*n, hints@.take(i as int)),
            n.id == old(n).id,
            n.app_name == old(n).app_name,
            n.app_icon == old(n).app_icon,
            n.summary == old(n).summary,
            n.body == old(n).body,
            n.timestamp == old(n).timestamp,
            n.dismissed == old(n).dismissed,
            n.expire_timeout == old(n).expire_timeout,
        decreases hints@.len() - i,
    {
        let ghost pre = hints@.take(i as int);
        let ghost cur = hints@.take(i + 1);
        assert(cur.drop_last() =~= pre);
        assert(cur.last() == hints@[i as int]);
        let (key, value) = (&hints[i].0, &hints[i].1);
        match classify_hint(key.as_str()) {
            HintKey::Urgency => {
                if let HintValue::Byte(u) = value {
                    n.urgency = Urgency::from(*u);
                }
            },
            HintKey::Category => {
                if let HintValue::Text(t) = value {
                    n.category = Some(t.clone());
                }
            },
            HintKey::DesktopEntry => {
                if let HintValue::Text(t) = value {
                    n.desktop_entry = Some(t.clone());
                }
            },
            HintKey::Transient => {
                if let HintValue::Boolean(b) = value {
                    n.transient = *b;
                }
            },
            HintKey::Resident => {
                if let HintValue::Boolean(b) = value {
                    n.resident = *b;
                }
            },
            HintKey::Progress => {
                if let HintValue::Int32(v) = value {
                    let p = if *v < 0 {
                        0
                    } else if *v > 100 {
                        100
                    } else {
                        *v
                    };
                    n.progress = Some(p);
                }
            },
            HintKey::ImagePath => {
                if let HintValue::Text(t) = value {
                    n.image_path = Some(t.clone());
                }
            },
            HintKey::Image => {
                if let Some(img) = parse_image_data(value) {
                    n.image_data = Some(img);
                }
            },
            HintKey::Unknown => {},
        }
        i += 1;
    }
    assert(hints@.take(i as int) =~= hints@);
}

/// Only hint `k` of `hs` is of kind `h`.
pub open spec fn only_hint_of_kind(hs: Seq<(String, HintValue)>, h: HintKey, k: int) -> bool {
    &&& 0 <= k < hs.len()
    &&& hint_key(hs[k].0@) == h
    &&& forall|j: int| 0 <= j < hs.len() && j != k ==> hint_key(#[trigger] hs[j].0@) != h
}

proof fn lemma_last_of_only(hs: Seq<(String, HintValue)>, h: HintKey, k: int)
    requires
        only_hint_of_kind(hs, h, k),
    ensures
        last_byte(hs, h) == (if hs[k].1 is Byte { Some(hs[k].1->Byte_0) } else { None::<u8> }),
        last_bool(hs, h) == (if hs[k].1 is Boolean { Some(hs[k].1->Boolean_0) } else { None::<bool> }),
        last_int(hs, h) == (if hs[k].1 is Int32 { Some(hs[k].1->Int32_0) } else { None::<i32> }),
        last_text(hs, h) == (if hs[k].1 is Text { Some(hs[k].1->Text_0@) } else { None::<Seq<char>> }),
    decreases hs.len(),
{
    let rest = hs.drop_last();
    if k == hs.len() - 1 {
        lemma_none_of_kind(rest, h);
    } else {
        assert(hint_key(hs[hs.len() - 1].0@) != h);
        assert forall|j: int| 0 <= j < rest.len() && j != k implies hint_key(#[trigger] rest[j].0@) != h by {
            assert(rest[j] == hs[j]);
        }
        lemma_last_of_only(rest, h, k);
    }
}

proof fn lemma_none_of_kind(hs: Seq<(String, HintValue)>, h: HintKey)
    requires
        forall|j: int| 0 <= j < hs.len() ==> hint_key(#[trigger] hs[j].0@) != h,
    ensures
        last_byte(hs, h) is None,
        last_bool(hs, h) is None,
        last_int(hs, h) is None,
        last_text(hs, h) is None,
    decreases hs.len(),
{
    if hs.len() > 0 {
        let rest = hs.drop_last();
        assert(hint_key(hs[hs.len() - 1].0@) != h);
        assert forall|j: int| 0 <= j < rest.len() implies hint_key(#[trigger] rest[j].0@) != h by {
            assert(rest[j] == hs[j]);
        }
        lemma_none_of_kind(rest, h);
    }
}

/// A hint given once sets its field from that hint alone, whatever order
/// the hints come in: where hint `k` is the only one for the urgency, the
/// progress, `transient` or `resident`, a hint of the right type sets the
/// urgency to the one its byte stands for, the progress to its integer
/// clamped to 0 to 100, and the flag to its boolean; one of another type
/// leaves the field as a fresh notification has it.
pub proof fn lemma_hint_given_once(n: Notification, hs: Seq<(String, HintValue)>, k: int)
    requires
        hints_applied(n, hs),
    ensures
        only_hint_of_kind(hs, HintKey::Urgency, k) ==> n.urgency == (match hs[k].1 {
            HintValue::Byte(u) => urgency_of(u),
            _ => Urgency::Normal,
        }),
        only_hint_of_kind(hs, HintKey::Progress, k) ==> n.progress == (match hs[k].1 {
            HintValue::Int32(v) => Some(clamp_percent(v)),
            _ => None,
        }),
        only_hint_of_kind(hs, HintKey::Transient, k) ==> n.transient == (match hs[k].1 {
            HintValue::Boolean(b) => b,
            _ => false,
        }),
        only_hint_of_kind(hs, HintKey::Resident, k) ==> n.resident == (match hs[k].1 {
            HintValue::Boolean(b) => b,
            _ => false,
        }),
{
    if only_hint_of_kind(hs, HintKey::Urgency, k) {
        lemma_last_of_only(hs, HintKey::Urgency, k);
    }
    if only_hint_of_kind(hs, HintKey::Progress, k) {
        lemma_last_of_only(hs, HintKey::Progress, k);
    }
    if only_hint_of_kind(hs, HintKey::Transient, k) {
        lemma_last_of_only(hs, HintKey::Transient, k);
    }
    if only_hint_of_kind(hs, HintKey::Resident, k) {
        lemma_last_of_only(hs, HintKey::Resident, k);
    }
}

/// The notification that a `Notify` call with these arguments makes, with
/// the given id: actions paired up, hints applied in order, and the
/// expiry the caller asked for unless it is 0 (the daemon decides).
pub fn build_notification(
    id: u32,
    app_name: String,
    app_icon: String,
    summary: String,
    body: String,
    actions: Vec<String>,
    hints: Vec<(String, HintValue)>,
    expire_timeout: i32,
) -> (r: Notification)
    ensures
        r.id == id,
        r.app_name@ == app_name@,
        r.app_icon@ == app_icon@,
        r.summary@ == summary@,
        r.body@ == body@,
        actions_paired(r.actions@, actions@),
        hints_applied(r, hints@),
        !r.dismissed,
        r.expire_timeout == (if expire_timeout != 0 { Some(expire_timeout) } else { None }),
{
    let mut n = Notification::new(id, app_name, app_icon, summary, body);
    apply_hints(&mut n, &hints);
    n.actions = pair_actions(&actions);
    if expire_timeout != 0 {
        n.expire_timeout = Some(expire_timeout);
    }
    n
}

/// Hands out notification ids: from 1 upward, wrapping around.
pub struct IdSource {
    next: u32,
}

impl IdSource {
    /// The id handed out next.
    pub closed spec fn upcoming(&self) -> u32 {
        self.next
    }

    pub fn new() -> (r: Self)
        ensures
            r.upcoming() == 1,
    {
        IdSource { next: 1 }
    }

    /// The id for a notification: the one it replaces when that is not 0,
    /// else a fresh one.
    pub fn id_for(&mut self, replaces_id: u32) -> (id: u32)
        ensures
            replaces_id > 0 ==> id == replaces_id && final(self).upcoming() == old(self).upcoming(),
            replaces_id == 0 ==> id == old(self).upcoming() && final(self).upcoming() == old(
                self,
            ).upcoming().wrapping_add(1),
    {
        if replaces_id > 0 {
            replaces_id
        } else {
            let id = self.next;
            self.next = self.next.wrapping_add(1);
            id
        }
    }
}

} // verus!
