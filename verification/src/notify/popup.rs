//! The popups: how they stack down the screen, which one leaves to make
//! room, and what their content shows and does.

use vstd::prelude::*;
use crate::notify::notification::{ImageData, Notification};
use crate::text::{str_eq, str_starts_with, starts_with};

verus! {

/// What a popup asks the daemon to do.
#[derive(Debug, Clone)]
pub enum PopupAction {
    Dismissed(u32),
    ActionInvoked(u32, String),
    Clicked(u32),
}

/// The height given to a popup: the window's, but at least 80.
pub open spec fn popup_height(window_height: int) -> int {
    if window_height > 80 {
        window_height
    } else {
        80
    }
}

/// Where the popup `id` stands among `entries`, or `entries.len()`.
pub open spec fn entry_index(entries: Seq<(u32, i32)>, id: u32) -> nat
    decreases entries.len(),
{
    if entries.len() == 0 {
        0
    } else if entries[0].0 == id {
        0
    } else {
        1 + entry_index(entries.drop_first(), id)
    }
}

/// Whether the popup `id` is shown.
pub open spec fn has_entry(entries: Seq<(u32, i32)>, id: u32) -> bool {
    exists|k: int| 0 <= k < entries.len() && entries[k].0 == id
}

/// The space the popups take: each one's height and a gap.
pub open spec fn stacked(entries: Seq<(u32, i32)>, gap: int) -> int
    decreases entries.len(),
{
    if entries.len() == 0 {
        0
    } else {
        stacked(entries.drop_last(), gap) + entries.last().1 + gap
    }
}

/// The popups on screen, in the order they came, and how far down the next
/// one goes.
pub struct PopupStack {
    entries: Vec<(u32, i32)>,
    offset: i32,
    margin: i32,
    gap: i32,
    max_visible: usize,
}

/// What a stack is: its popups with their heights, and its offset.
pub struct StackView {
    pub entries: Seq<(u32, i32)>,
    pub offset: int,
}

/// The stack after a popup of the given height came: it is added (or, for
/// a shown id, its height replaced) and the offset grows by the height and
/// a gap.
pub open spec fn pushed(v: StackView, id: u32, height: i32, gap: int) -> StackView {
    let i = entry_index(v.entries, id);
    StackView {
        entries: if i < v.entries.len() {
            v.entries.update(i as int, (id, height))
        } else {
            v.entries.push((id, height))
        },
        offset: v.offset + height + gap,
    }
}

/// The stack after the popup `id` went: it is taken out and the offset
/// shrinks by its height and a gap, down to 0 at least. A popup that is
/// not shown changes nothing.
pub open spec fn removed(v: StackView, id: u32, gap: int) -> StackView {
    let i = entry_index(v.entries, id);
    if i < v.entries.len() {
        let lowered = v.offset - v.entries[i as int].1 - gap;
        StackView {
            entries: v.entries.remove(i as int),
            offset: if lowered > 0 { lowered } else { 0 },
        }
    } else {
        v
    }
}

proof fn lemma_entry_index(entries: Seq<(u32, i32)>, id: u32)
    ensures
        entry_index(entries, id) <= entries.len(),
        entry_index(entries, id) < entries.len() ==> entries[entry_index(entries, id) as int].0 == id,
        forall|k: int| 0 <= k < entry_index(entries, id) ==> entries[k].0 != id,
        entry_index(entries, id) < entries.len() <==> has_entry(entries, id),
    decreases entries.len(),
{
    if entries.len() > 0 && entries[0].0 != id {
        let t = entries.drop_first();
        lemma_entry_index(t, id);
        assert forall|k: int| 0 <= k < entry_index(entries, id) implies entries[k].0 != id by {
            if k > 0 {
                assert(entries[k] == t[k - 1]);
            }
        }
        if has_entry(entries, id) {
            let k = choose|k: int| 0 <= k < entries.len() && entries[k].0 == id;
            assert(t[k - 1].0 == id);
        }
        if has_entry(t, id) {
            let k = choose|k: int| 0 <= k < t.len() && t[k].0 == id;
            assert(entries[k + 1].0 == id);
        }
    }
}

impl PopupStack {
    /// The popups and the offset.
    pub closed spec fn view(&self) -> StackView {
        StackView { entries: self.entries@, offset: self.offset as int }
    }

    /// The gap between popups.
    pub closed spec fn gap_of(&self) -> int {
        self.gap as int
    }

    /// The margin above the first popup.
    pub closed spec fn margin_of(&self) -> int {
        self.margin as int
    }

    /// How many popups may be on screen.
    pub closed spec fn max_visible_of(&self) -> nat {
        self.max_visible as nat
    }

    /// An empty stack, for popups placed `margin` from the top and right
    /// edges and `gap` apart, at most `max_visible` at once.
    pub fn new(margin: i32, gap: i32, max_visible: usize) -> (r: Self)
        ensures
            r.view().entries == Seq::<(u32, i32)>::empty(),
            r.view().offset == 0,
            r.gap_of() == gap,
            r.margin_of() == margin,
            r.max_visible_of() == max_visible,
    {
        PopupStack { entries: Vec::new(), offset: 0, margin, gap, max_visible }
    }

    /// How far down, below the margin, the next popup goes.
    pub fn offset(&self) -> (r: i32)
        ensures
            r == self.view().offset,
    {
        self.offset
    }

    /// How many popups are on screen.
    pub fn len(&self) -> (r: usize)
        ensures
            r == self.view().entries.len(),
    {
        self.entries.len()
    }

    /// The ids of the popups on screen, oldest first.
    pub fn ids(&self) -> (r: Vec<u32>)
        ensures
            r@.len() == self.view().entries.len(),
            forall|k: int| 0 <= k < r@.len() ==> r@[k] == self.view().entries[k].0,
    {
        let mut r: Vec<u32> = Vec::new();
        let mut i: usize = 0;
        while i < self.entries.len()
            invariant
                i <= self.entries@.len(),
                r@.len() == i,
                forall|k: int| 0 <= k < i ==> r@[k] == self.entries@[k].0,
            decreases self.entries@.len() - i,
        {
            r.push(self.entries[i].0);
            i += 1;
        }
        r
    }

    /// The popup that goes to make room for a new one: the oldest, when as
    /// many as may be shown are shown.
    pub fn to_evict(&self) -> (r: Option<u32>)
        ensures
            r is Some <==> (self.view().entries.len() >= self.max_visible_of() && self.view().entries.len() > 0),
            r matches Some(id) ==> id == self.view().entries[0].0,
    {
        if self.entries.len() >= self.max_visible && self.entries.len() > 0 {
            Some(self.entries[0].0)
        } else {
            None
        }
    }

    /// Where the next popup goes: the margin plus the offset.
    pub fn next_margin(&self) -> (r: i32)
        requires
            i32::MIN <= self.margin_of() + self.view().offset <= i32::MAX,
        ensures
            r == self.margin_of() + self.view().offset,
    {
        self.margin + self.offset
    }

    /// A popup was shown in a window of the given height; its height (at
    /// least 80) is returned.
    pub fn push(&mut self, id: u32, window_height: i32) -> (h: i32)
        requires
            i32::MIN <= old(self).view().offset + popup_height(window_height as int) + old(self).gap_of() <= i32::MAX,
        ensures
            h == popup_height(window_height as int),
            final(self).view() == pushed(old(self).view(), id, h, old(self).gap_of()),
            final(self).gap_of() == old(self).gap_of(),
            final(self).margin_of() == old(self).margin_of(),
            final(self).max_visible_of() == old(self).max_visible_of(),
    {
        let h: i32 = if window_height > 80 { window_height } else { 80 };
        proof {
            lemma_entry_index(self.entries@, id);
        }
        let mut i: usize = 0;
        while i < self.entries.len() && self.entries[i].0 != id
            invariant
                i <= self.entries@.len(),
                forall|k: int| 0 <= k < i ==> self.entries@[k].0 != id,
            decreases self.entries@.len() - i,
        {
            i += 1;
        }
        proof {
            if i < self.entries@.len() {
                assert(entry_index(self.entries@, id) == i) by {
                    if entry_index(self.entries@, id) < i {
                        assert(self.entries@[entry_index(self.entries@, id) as int].0 == id);
                    }
                }
            } else {
                assert(!has_entry(self.entries@, id));
            }
        }
        if i < self.entries.len() {
            self.entries.set(i, (id, h));
        } else {
            self.entries.push((id, h));
        }
        let grown: i64 = self.offset as i64 + h as i64 + self.gap as i64;
        self.offset = grown as i32;
        h
    }

    /// The popup `id` went; its height is returned when it was shown.
    pub fn remove(&mut self, id: u32) -> (r: Option<i32>)
        requires
            has_entry(old(self).view().entries, id) ==> old(self).view().offset - old(self).view().entries[entry_index(old(self).view().entries, id) as int].1 - old(self).gap_of() <= i32::MAX,
        ensures
            final(self).view() == removed(old(self).view(), id, old(self).gap_of()),
            r is Some <==> has_entry(old(self).view().entries, id),
            r matches Some(h) ==> h == old(self).view().entries[entry_index(old(self).view().entries, id) as int].1,
            final(self).gap_of() == old(self).gap_of(),
            final(self).margin_of() == old(self).margin_of(),
            final(self).max_visible_of() == old(self).max_visible_of(),
    {
        proof {
            lemma_entry_index(self.entries@, id);
        }
        let mut i: usize = 0;
        while i < self.entries.len() && self.entries[i].0 != id
            invariant
                i <= self.entries@.len(),
                forall|k: int| 0 <= k < i ==> self.entries@[k].0 != id,
            decreases self.entries@.len() - i,
        {
            i += 1;
        }
        if i == self.entries.len() {
            proof {
                if entry_index(self.entries@, id) < i {
                    assert(self.entries@[entry_index(self.entries@, id) as int].0 == id);
                }
            }
            return None;
        }
        proof {
            assert(entry_index(self.entries@, id) == i) by {
                if entry_index(self.entries@, id) < i {
                    assert(self.entries@[entry_index(self.entries@, id) as int].0 == id);
                }
            }
        }
        let (_, h) = self.entries.remove(i);
        let lowered: i64 = self.offset as i64 - h as i64 - self.gap as i64;
        self.offset = if lowered > 0 { lowered as i32 } else { 0 };
        Some(h)
    }
}

/// Taking a popup out undoes showing it: for a popup that was not shown,
/// on a stack whose offset is not negative, showing it and then taking it
/// out gives back the same popups and offset.
pub proof fn lemma_remove_undoes_push(v: StackView, id: u32, height: i32, gap: int)
    requires
        !has_entry(v.entries, id),
        v.offset >= 0,
    ensures
        removed(pushed(v, id, height, gap), id, gap) == v,
{
    lemma_entry_index(v.entries, id);
    let p = pushed(v, id, height, gap);
    let n = v.entries.len();
    assert(p.entries == v.entries.push((id, height)));
    lemma_entry_index(p.entries, id);
    assert(entry_index(p.entries, id) == n) by {
        if entry_index(p.entries, id) < n {
            assert(p.entries[entry_index(p.entries, id) as int] == v.entries[entry_index(p.entries, id) as int]);
        }
        assert(p.entries[n as int].0 == id);
    }
    assert(p.entries.remove(n as int) =~= v.entries);
}

/// A popup shown on a full stack makes the oldest go: with `max_visible`
/// popups shown (at least one) and a new one that is not among them,
/// taking the oldest out and showing the new one leaves the younger ones,
/// in the order they came, and the new one last, `max_visible` in all.
pub proof fn lemma_show_evicts_oldest(v: StackView, id: u32, height: i32, gap: int, max_visible: nat)
    requires
        v.entries.len() == max_visible,
        max_visible >= 1,
        !has_entry(v.entries, id),
    ensures
        pushed(removed(v, v.entries[0].0, gap), id, height, gap).entries == v.entries.drop_first().push((id, height)),
        pushed(removed(v, v.entries[0].0, gap), id, height, gap).entries.len() == max_visible,
{
    assert(entry_index(v.entries, v.entries[0].0) == 0);
    let rest = removed(v, v.entries[0].0, gap).entries;
    assert(rest =~= v.entries.drop_first());
    lemma_entry_index(rest, id);
    if has_entry(rest, id) {
        let k = choose|k: int| 0 <= k < rest.len() && rest[k].0 == id;
        assert(v.entries[k + 1].0 == id);
    }
}

/// The offset is the space the popups take: on a stack whose offset is
/// the sum of the shown popups' heights and gaps, with a gap that is not
/// negative, showing a popup that was not shown and taking one out both
/// keep it so.
pub proof fn lemma_offset_is_stacked(v: StackView, id: u32, height: i32, gap: int)
    requires
        v.offset == stacked(v.entries, gap),
        gap >= 0,
        forall|k: int| 0 <= k < v.entries.len() ==> v.entries[k].1 >= 80,
        height >= 80,
    ensures
        !has_entry(v.entries, id) ==> pushed(v, id, height, gap).offset == stacked(pushed(v, id, height, gap).entries, gap),
        removed(v, id, gap).offset == stacked(removed(v, id, gap).entries, gap),
{
    lemma_entry_index(v.entries, id);
    if !has_entry(v.entries, id) {
        let p = pushed(v, id, height, gap);
        assert(p.entries.drop_last() =~= v.entries);
    }
    let i = entry_index(v.entries, id);
    if i < v.entries.len() {
        lemma_stacked_remove(v.entries, gap, i as int);
        lemma_stacked_nonneg(v.entries.remove(i as int), gap);
    }
}

proof fn lemma_stacked_nonneg(entries: Seq<(u32, i32)>, gap: int)
    requires
        gap >= 0,
        forall|k: int| 0 <= k < entries.len() ==> entries[k].1 >= 80,
    ensures
        stacked(entries, gap) >= 0,
    decreases entries.len(),
{
    if entries.len() > 0 {
        lemma_stacked_nonneg(entries.drop_last(), gap);
    }
}

proof fn lemma_stacked_remove(entries: Seq<(u32, i32)>, gap: int, i: int)
    requires
        0 <= i < entries.len(),
    ensures
        stacked(entries, gap) == stacked(entries.remove(i), gap) + entries[i].1 + gap,
    decreases entries.len(),
{
    if i == entries.len() - 1 {
        assert(entries.remove(i) =~= entries.drop_last());
    } else {
        lemma_stacked_remove(entries.drop_last(), gap, i);
        assert(entries.remove(i).drop_last() =~= entries.drop_last().remove(i));
        assert(entries.remove(i).last() == entries.last());
    }
}

/// Whether a notification's actions hold a `default` one.
pub fn has_default_action(actions: &Vec<(String, String)>) -> (r: bool)
    ensures
        r == exists|k: int| 0 <= k < actions@.len() && actions@[k].0@ == "default"@,
{
    let mut i: usize = 0;
    while i < actions.len()
        invariant
            i <= actions@.len(),
            forall|k: int| 0 <= k < i ==> actions@[k].0@ != "default"@,
        decreases actions@.len() - i,
    {
        if str_eq(actions[i].0.as_str(), "default") {
            return true;
        }
        i += 1;
    }
    false
}

/// What a click on a popup sends: the default action where the
/// notification has one, else a plain click.
pub fn click_action(notification: &Notification) -> (r: PopupAction)
    ensures
        (exists|k: int| 0 <= k < notification.actions@.len() && notification.actions@[k].0@ == "default"@) ==> (r matches PopupAction::ActionInvoked(id, key) && id == notification.id && key@ == "default"@),
        !(exists|k: int| 0 <= k < notification.actions@.len() && notification.actions@[k].0@ == "default"@) ==> r == PopupAction::Clicked(notification.id),
{
    if has_default_action(&notification.actions) {
        PopupAction::ActionInvoked(notification.id, "default".to_string())
    } else {
        PopupAction::Clicked(notification.id)
    }
}

/// The actions shown as buttons: all but `default`, in order.
pub open spec fn visible(actions: Seq<(Seq<char>, Seq<char>)>) -> Seq<(Seq<char>, Seq<char>)>
    decreases actions.len(),
{
    if actions.len() == 0 {
        seq![]
    } else if actions.last().0 == "default"@ {
        visible(actions.drop_last())
    } else {
        visible(actions.drop_last()).push(actions.last())
    }
}

/// The actions of a notification, as pairs of key and label.
pub open spec fn action_pairs(actions: Seq<(String, String)>) -> Seq<(Seq<char>, Seq<char>)> {
    actions.map_values(|a: (String, String)| (a.0@, a.1@))
}

/// The action buttons of a popup: the actions other than `default`.
pub fn visible_actions(actions: &Vec<(String, String)>) -> (r: Vec<(String, String)>)
    ensures
        action_pairs(r@) == visible(action_pairs(actions@)),
{
    let mut r: Vec<(String, String)> = Vec::new();
    let mut i: usize = 0;
    while i < actions.len()
        invariant
            i <= actions@.len(),
            action_pairs(r@) == visible(action_pairs(actions@.take(i as int))),
        decreases actions@.len() - i,
    {
        assert(action_pairs(actions@.take(i + 1)).drop_last() =~= action_pairs(actions@.take(i as int)));
        if !str_eq(actions[i].0.as_str(), "default") {
            let ghost before = r@;
            r.push((actions[i].0.clone(), actions[i].1.clone()));
            assert(action_pairs(r@) =~= action_pairs(before).push((actions@[i as int].0@, actions@[i as int].1@)));
        }
        i += 1;
    }
    assert(actions@.take(i as int) =~= actions@);
    r
}

/// How the app icon of a notification is loaded.
#[derive(Debug, Clone, Copy, PartialEq, Eq, Structural)]
pub enum IconSource {
    /// There is none.
    Nothing,
    /// From the file the icon names.
    File,
    /// By icon name, from the theme.
    Named,
}

/// An empty icon shows nothing, one starting with `/` is a file, any
/// other an icon name.
pub fn icon_source(app_icon: &str) -> (r: IconSource)
    ensures
        app_icon@.len() == 0 ==> r == IconSource::Nothing,
        app_icon@.len() > 0 && app_icon@[0] == '/' ==> r == IconSource::File,
        app_icon@.len() > 0 && app_icon@[0] != '/' ==> r == IconSource::Named,
{
    proof {
        reveal_strlit("/");
    }
    let cs = crate::text::chars_of(app_icon);
    if cs.len() == 0 {
        IconSource::Nothing
    } else if cs[0] == '/' {
        IconSource::File
    } else {
        IconSource::Named
    }
}

/// Whether image data can make a picture: positive sizes, some bytes, and
/// at least `height * rowstride` of them. Data whose `height * rowstride`
/// does not fit an `i32` describes no picture that can be made, and fits
/// not.
pub fn image_fits(data: &ImageData) -> (r: bool)
    ensures
        r == (data.width > 0 && data.height > 0 && data.rowstride > 0 && data.data@.len() > 0
            && data.height * data.rowstride <= i32::MAX
            && data.data@.len() >= data.height * data.rowstride),
{
    if data.width <= 0 || data.height <= 0 || data.rowstride <= 0 || data.data.len() == 0 {
        return false;
    }
    let h: i64 = data.height as i64;
    let w: i64 = data.rowstride as i64;
    assert(0 < h * w <= 0x7fff_ffff * 0x7fff_ffff) by (nonlinear_arith)
        requires
            0 < h <= 0x7fff_ffff,
            0 < w <= 0x7fff_ffff,
    ;
    let expected: i64 = h * w;
    if expected > i32::MAX as i64 {
        return false;
    }
    data.data.len() >= expected as usize
}

} // verus!
