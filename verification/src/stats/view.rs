//! What the stats popup shows: which temperature sensors are listed and
//! how the battery line reads.

use vstd::prelude::*;
use crate::poll::battery::{percentage_text, percentage_str, BatteryStatus};
use crate::text::{contains, lowercase, push_str, str_contains, to_lowercase};

verus! {

/// A sensor is listed when its lower-cased label contains one of the
/// wanted labels, lower-cased.
pub open spec fn wanted(label: Seq<char>, wanted_labels: Seq<Seq<char>>) -> bool {
    exists|k: int| 0 <= k < wanted_labels.len() && contains(lowercase(label), lowercase(#[trigger] wanted_labels[k]))
}

/// The positions of the wanted sensors among `labels`, in order.
pub open spec fn wanted_positions(labels: Seq<Seq<char>>, wanted_labels: Seq<Seq<char>>) -> Seq<usize>
    decreases labels.len(),
{
    if labels.len() == 0 {
        seq![]
    } else if wanted(labels.last(), wanted_labels) {
        wanted_positions(labels.drop_last(), wanted_labels).push((labels.len() - 1) as usize)
    } else {
        wanted_positions(labels.drop_last(), wanted_labels)
    }
}

/// The views of a list of strings.
pub open spec fn texts(v: Seq<String>) -> Seq<Seq<char>> {
    v.map_values(|s: String| s@)
}

fn is_wanted(label: &str, wanted_labels: &Vec<String>) -> (r: bool)
    ensures
        r == wanted(label@, texts(wanted_labels@)),
{
    let lower = to_lowercase(label);
    let mut k: usize = 0;
    while k < wanted_labels.len()
        invariant
            k <= wanted_labels@.len(),
            lower@ == lowercase(label@),
            forall|q: int| 0 <= q < k ==> !contains(lowercase(label@), lowercase(#[trigger] texts(wanted_labels@)[q])),
        decreases wanted_labels@.len() - k,
    {
        let w = to_lowercase(wanted_labels[k].as_str());
        if str_contains(lower.as_str(), w.as_str()) {
            assert(texts(wanted_labels@)[k as int] == wanted_labels@[k as int]@);
            return true;
        }
        assert(texts(wanted_labels@)[k as int] == wanted_labels@[k as int]@);
        k += 1;
    }
    false
}

/// The sensors the popup lists: those whose label contains a wanted one
/// (case aside), the first `max_display` of them, as positions in
/// `labels`.
pub fn shown_sensors(labels: &Vec<String>, wanted_labels: &Vec<String>, max_display: usize) -> (r: Vec<usize>)
    ensures
        r@ == wanted_positions(texts(labels@), texts(wanted_labels@)).take(
            if wanted_positions(texts(labels@), texts(wanted_labels@)).len() <= max_display {
                wanted_positions(texts(labels@), texts(wanted_labels@)).len() as int
            } else {
                max_display as int
            },
        ),
{
    let ghost lv = texts(labels@);
    let ghost wv = texts(wanted_labels@);
    let mut all: Vec<usize> = Vec::new();
    let mut i: usize = 0;
    while i < labels.len()
        invariant
            i <= labels@.len(),
            lv == texts(labels@),
            wv == texts(wanted_labels@),
            all@ == wanted_positions(lv.take(i as int), wv),
        decreases labels@.len() - i,
    {
        assert(lv.take(i + 1).drop_last() =~= lv.take(i as int));
        assert(lv.take(i + 1).last() == labels@[i as int]@);
        if is_wanted(labels[i].as_str(), wanted_labels) {
            all.push(i);
        }
        i += 1;
    }
    assert(lv.take(i as int) =~= lv);
    let ghost ps = all@;
    let mut r: Vec<usize> = Vec::new();
    let mut k: usize = 0;
    while k < all.len() && k < max_display
        invariant
            k <= all@.len(),
            k <= max_display,
            all@ == ps,
            r@ == ps.take(k as int),
        decreases all@.len() - k,
    {
        r.push(all[k]);
        assert(ps.take(k as int).push(ps[k as int]) =~= ps.take(k + 1));
        k += 1;
    }
    assert(ps == wanted_positions(texts(labels@), texts(wanted_labels@)));
    assert(r@ == ps.take(if ps.len() <= max_display { ps.len() as int } else { max_display as int }));
    r
}

/// What follows the percentage on the battery line.
pub open spec fn battery_suffix(status: BatteryStatus) -> Seq<char> {
    match status {
        BatteryStatus::Charging => " (charging)"@,
        BatteryStatus::Full => " (full)"@,
        _ => ""@,
    }
}

/// The battery line: the percentage, and whether it charges or is full;
/// `N/A` without a battery.
pub fn battery_line(battery: Option<(u8, BatteryStatus)>) -> (r: String)
    ensures
        r@ == (match battery {
            Some((p, status)) => percentage_text(p as nat) + battery_suffix(status),
            None => "N/A"@,
        }),
{
    match battery {
        Some((p, status)) => {
            let mut r = percentage_str(p);
            match status {
                BatteryStatus::Charging => push_str(&mut r, " (charging)"),
                BatteryStatus::Full => push_str(&mut r, " (full)"),
                _ => {
                    proof {
                        reveal_strlit("");
                    }
                    assert(r@ + ""@ =~= r@);
                },
            }
            r
        },
        None => "N/A".to_string(),
    }
}

} // verus!
