//! The raw serial panel: the latest packet of each robot, and the table
//! that shows two packets field by field.

use vstd::prelude::*;
use vstd::string::*;
use crate::data::robot_state::RobotState;
use crate::text::{insert_unique_sorted, strictly_sorted};

verus! {

/// The latest packet of each robot.
pub struct RawSerialWindow {
    pub latest_bot0: Option<RobotState>,
    pub latest_bot1: Option<RobotState>,
}

impl RawSerialWindow {
    pub fn new() -> (r: Self)
        ensures
            r.latest_bot0 is None,
            r.latest_bot1 is None,
    {
        RawSerialWindow { latest_bot0: None, latest_bot1: None }
    }

    /// Keeps a decoded packet as the latest of the robot that sent it; a
    /// packet from a robot other than 0 and 1 is dropped.
    pub fn record_state(&mut self, state: RobotState)
        ensures
            state.esp_now_bot_id == 0 ==> final(self).latest_bot0 == Some(state)
                && final(self).latest_bot1 == old(self).latest_bot1,
            state.esp_now_bot_id == 1 ==> final(self).latest_bot1 == Some(state)
                && final(self).latest_bot0 == old(self).latest_bot0,
            state.esp_now_bot_id != 0 && state.esp_now_bot_id != 1 ==> *final(self) == *old(self),
    {
        match state.esp_now_bot_id {
            0 => self.latest_bot0 = Some(state),
            1 => self.latest_bot1 = Some(state),
            _ => {},
        }
    }
}

/// The named values of one packet, in display order.
pub type FieldSeq = Seq<(Seq<char>, Seq<char>)>;

/// The value given to the first field named `key`, if any.
pub open spec fn first_value(fields: FieldSeq, key: Seq<char>) -> Option<Seq<char>>
    decreases fields.len(),
{
    if fields.len() == 0 {
        None
    } else if fields[0].0 == key {
        Some(fields[0].1)
    } else {
        first_value(fields.drop_first(), key)
    }
}

/// Some field of `fields` is named `key`.
pub open spec fn names_key(fields: Option<FieldSeq>, key: Seq<char>) -> bool {
    match fields {
        Some(f) => exists|i: int| 0 <= i < f.len() && #[trigger] f[i].0 == key,
        None => false,
    }
}

/// The table cell for `key`: the field's value, or `"-"` when the packet is
/// missing or has no such field.
pub open spec fn cell(fields: Option<FieldSeq>, key: Seq<char>) -> Seq<char> {
    match fields {
        Some(f) => match first_value(f, key) {
            Some(v) => v,
            None => "-"@,
        },
        None => "-"@,
    }
}

/// The value of the first field named `key`.
pub fn find_value(fields: &Vec<(String, String)>, key: &String) -> (r: Option<String>)
    ensures
        r.deep_view() == first_value(fields.deep_view(), key@),
{
    let ghost all = fields.deep_view();
    let mut i: usize = 0;
    assert(all.skip(0) =~= all);
    while i < fields.len()
        invariant
            i <= fields.len(),
            all == fields.deep_view(),
            first_value(all, key@) == first_value(all.skip(i as int), key@),
        decreases fields.len() - i,
    {
        let ghost rest = all.skip(i as int);
        assert(rest[0] == all[i as int]);
        assert(rest.drop_first() =~= all.skip(i + 1));
        if fields[i].0 == *key {
            return Some(fields[i].1.clone());
        }
        i += 1;
    }
    None
}

/// Adds the names of `fields` to the sorted label list.
fn add_labels(labels: &mut Vec<String>, fields: &Vec<(String, String)>)
    requires
        strictly_sorted(old(labels).deep_view()),
    ensures
        strictly_sorted(final(labels).deep_view()),
        forall|s: Seq<char>| #[trigger]
            final(labels).deep_view().contains(s) <==> old(labels).deep_view().contains(s)
                || names_key(Some(fields.deep_view()), s),
{
    let ghost start = labels.deep_view();
    let ghost f = fields.deep_view();
    let mut i: usize = 0;
    while i < fields.len()
        invariant
            i <= fields.len(),
            f == fields.deep_view(),
            start == old(labels).deep_view(),
            strictly_sorted(labels.deep_view()),
            forall|s: Seq<char>| #[trigger]
                labels.deep_view().contains(s) <==> start.contains(s) || exists|k: int|
                    0 <= k < i && #[trigger] f[k].0 == s,
        decreases fields.len() - i,
    {
        let ghost before = labels.deep_view();
        insert_unique_sorted(labels, fields[i].0.clone());
        assert forall|s: Seq<char>| #[trigger]
            labels.deep_view().contains(s) <==> start.contains(s) || exists|k: int|
                0 <= k < i + 1 && #[trigger] f[k].0 == s by {
            if s == f[i as int].0 {
            } else if exists|k: int| 0 <= k < i + 1 && #[trigger] f[k].0 == s {
                let k = choose|k: int| 0 <= k < i + 1 && #[trigger] f[k].0 == s;
                assert(k < i);
            }
        }
        i += 1;
    }
    assert(f.len() == i);
    assert forall|s: Seq<char>| #[trigger] labels.deep_view().contains(s) <==> start.contains(s)
        || names_key(Some(f), s) by {
        if names_key(Some(f), s) {
            let k = choose|k: int| 0 <= k < f.len() && #[trigger] f[k].0 == s;
            assert(0 <= k < i && f[k].0 == s);
        }
        if exists|k: int| 0 <= k < i && #[trigger] f[k].0 == s {
            let k = choose|k: int| 0 <= k < i && #[trigger] f[k].0 == s;
            let o: Option<FieldSeq> = Some(f);
            assert(o->0[k].0 == s);
        }
    }
}

/// The first column of table rows.
pub open spec fn row_labels(rows: Seq<(Seq<char>, Seq<char>, Seq<char>)>) -> Seq<Seq<char>> {
    rows.map_values(|r: (Seq<char>, Seq<char>, Seq<char>)| r.0)
}

/// The rows of the two-packet table: every field name of either packet
/// once, in sorted order, with the value each packet gives it (`"-"` where
/// it gives none).
pub fn field_table(
    fields0: Option<&Vec<(String, String)>>,
    fields1: Option<&Vec<(String, String)>>,
) -> (rows: Vec<(String, String, String)>)
    ensures
        strictly_sorted(row_labels(rows.deep_view())),
        forall|s: Seq<char>| #[trigger]
            row_labels(rows.deep_view()).contains(s)
                <==> names_key(fields0.deep_view(), s) || names_key(fields1.deep_view(), s),
        forall|i: int|
            0 <= i < rows.len() ==> {
                let r = #[trigger] rows.deep_view()[i];
                &&& r.1 == cell(fields0.deep_view(), r.0)
                &&& r.2 == cell(fields1.deep_view(), r.0)
            },
{
    let mut labels: Vec<String> = Vec::new();
    assert(labels.deep_view() =~= Seq::<Seq<char>>::empty());
    if let Some(f0) = fields0 {
        add_labels(&mut labels, f0);
    }
    let ghost mid = labels.deep_view();
    if let Some(f1) = fields1 {
        add_labels(&mut labels, f1);
    }
    let ghost ls = labels.deep_view();
    assert forall|s: Seq<char>| #[trigger] ls.contains(s) <==> names_key(fields0.deep_view(), s)
        || names_key(fields1.deep_view(), s) by {
    }
    let mut rows: Vec<(String, String, String)> = Vec::new();
    let mut i: usize = 0;
    while i < labels.len()
        invariant
            i <= labels.len(),
            ls == labels.deep_view(),
            rows.len() == i,
            forall|k: int|
                0 <= k < i ==> {
                    let r = #[trigger] rows.deep_view()[k];
                    &&& r.0 == ls[k]
                    &&& r.1 == cell(fields0.deep_view(), r.0)
                    &&& r.2 == cell(fields1.deep_view(), r.0)
                },
        decreases labels.len() - i,
    {
        let label = labels[i].clone();
        let v0 = match fields0 {
            Some(f) => match find_value(f, &label) {
                Some(v) => v,
                None => String::from_str("-"),
            },
            None => String::from_str("-"),
        };
        let v1 = match fields1 {
            Some(f) => match find_value(f, &label) {
                Some(v) => v,
                None => String::from_str("-"),
            },
            None => String::from_str("-"),
        };
        let ghost before = rows.deep_view();
        rows.push((label, v0, v1));
        assert(rows.deep_view() =~= before.push((ls[i as int], v0@, v1@)));
        i += 1;
    }
    assert(row_labels(rows.deep_view()) =~= ls);
    rows
}

} // verus!
