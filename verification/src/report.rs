//! Validation reports rendered as JSON: error messages grouped by field,
//! fields in order, each with its messages in the order reported.

use vstd::prelude::*;

use crate::json::json_object;
use crate::order::{
    chars_lt, lemma_lt_irreflexive, lemma_lt_total, lemma_lt_transitive, seq_lt,
};
use crate::text::chars_of;

pub use garde::{Error, Path, Report, Validate};

verus! {

/// One reported error: the path of the field and the message.
pub type ErrorEntry = (Seq<char>, Seq<char>);

/// The messages reported for one field.
pub type FieldGroup = (Seq<char>, Seq<Seq<char>>);

/// The number of groups in `g`, from the front, whose field comes before `k`.
pub open spec fn lower_bound(g: Seq<FieldGroup>, k: Seq<char>) -> int
    decreases g.len(),
{
    if g.len() == 0 {
        0
    } else if seq_lt(g[0].0, k) {
        1 + lower_bound(g.drop_first(), k)
    } else {
        0
    }
}

/// `g` after the message `m` for field `k` is added: appended to the
/// group of `k`, or a new group for `k` at its place in field order.
pub open spec fn add_message(g: Seq<FieldGroup>, k: Seq<char>, m: Seq<char>) -> Seq<FieldGroup> {
    let i = lower_bound(g, k);
    if i < g.len() && g[i].0 == k {
        g.update(i, (k, g[i].1.push(m)))
    } else {
        g.insert(i, (k, seq![m]))
    }
}

/// The errors `e` grouped by field, read in order.
pub open spec fn grouped(e: Seq<ErrorEntry>) -> Seq<FieldGroup>
    decreases e.len(),
{
    if e.len() == 0 {
        Seq::empty()
    } else {
        add_message(grouped(e.drop_last()), e.last().0, e.last().1)
    }
}

/// The messages that `e` reports for field `k`, in order.
pub open spec fn messages_for(e: Seq<ErrorEntry>, k: Seq<char>) -> Seq<Seq<char>>
    decreases e.len(),
{
    if e.len() == 0 {
        Seq::empty()
    } else if e.last().0 == k {
        messages_for(e.drop_last(), k).push(e.last().1)
    } else {
        messages_for(e.drop_last(), k)
    }
}

/// Some group of `g` is for field `k`.
pub open spec fn has_field(g: Seq<FieldGroup>, k: Seq<char>) -> bool {
    exists|i: int| 0 <= i < g.len() && g[i].0 == k
}

/// Some error of `e` is reported for field `k`.
pub open spec fn reports_field(e: Seq<ErrorEntry>, k: Seq<char>) -> bool {
    exists|j: int| 0 <= j < e.len() && e[j].0 == k
}

/// The fields of `g` come in strictly increasing order.
pub open spec fn fields_sorted(g: Seq<FieldGroup>) -> bool {
    forall|i: int, j: int| 0 <= i < j < g.len() ==> seq_lt(g[i].0, g[j].0)
}

/// The JSON text for a report whose errors are `e`: an object with one
/// member per field, fields in order, each an array of its messages.
pub open spec fn report_json(e: Seq<ErrorEntry>) -> Seq<char> {
    json_object(grouped(e))
}

proof fn lemma_no_messages(e: Seq<ErrorEntry>, k: Seq<char>)
    requires
        forall|j: int| 0 <= j < e.len() ==> e[j].0 != k,
    ensures
        messages_for(e, k) == Seq::<Seq<char>>::empty(),
    decreases e.len(),
{
    if e.len() > 0 {
        lemma_no_messages(e.drop_last(), k);
    }
}

proof fn lemma_lower_bound(g: Seq<FieldGroup>, k: Seq<char>)
    requires
        fields_sorted(g),
    ensures
        0 <= lower_bound(g, k) <= g.len(),
        forall|j: int| 0 <= j < lower_bound(g, k) ==> seq_lt(g[j].0, k),
        forall|j: int| lower_bound(g, k) <= j < g.len() ==> !seq_lt(g[j].0, k),
    decreases g.len(),
{
    if g.len() > 0 {
        if seq_lt(g[0].0, k) {
            let t = g.drop_first();
            lemma_lower_bound(t, k);
            assert forall|j: int| 0 <= j < lower_bound(g, k) implies seq_lt(g[j].0, k) by {
                if j > 0 {
                    assert(g[j] == t[j - 1]);
                }
            }
            assert forall|j: int| lower_bound(g, k) <= j < g.len() implies !seq_lt(g[j].0, k) by {
                assert(g[j] == t[j - 1]);
            }
        } else {
            assert forall|j: int| 0 <= j < g.len() implies !seq_lt(g[j].0, k) by {
                if j > 0 && seq_lt(g[j].0, k) {
                    lemma_lt_transitive(g[0].0, g[j].0, k);
                }
            }
        }
    }
}

/// Grouping a report: the fields come in strictly increasing order (so
/// each field once), each field's messages are exactly those reported for
/// it, in the order reported, and the fields are exactly those that the
/// report names.
pub proof fn lemma_grouped(e: Seq<ErrorEntry>)
    ensures
        fields_sorted(grouped(e)),
        forall|i: int|
            0 <= i < grouped(e).len() ==> #[trigger] grouped(e)[i].1 == messages_for(
                e,
                grouped(e)[i].0,
            ),
        forall|k: Seq<char>| #[trigger] has_field(grouped(e), k) == reports_field(e, k),
    decreases e.len(),
{
    if e.len() > 0 {
        let e0 = e.drop_last();
        let g0 = grouped(e0);
        let k = e.last().0;
        let m = e.last().1;
        let g = grouped(e);
        lemma_grouped(e0);
        lemma_lower_bound(g0, k);
        let lb = lower_bound(g0, k);
        assert forall|i: int, j: int| 0 <= i < j < g0.len() implies g0[i].0 != g0[j].0 by {
            lemma_lt_irreflexive(g0[i].0);
        }
        if lb < g0.len() && g0[lb].0 == k {
            assert(g == g0.update(lb, (k, g0[lb].1.push(m))));
            assert forall|i: int| 0 <= i < g.len() implies #[trigger] g[i].1 == messages_for(
                e,
                g[i].0,
            ) by {
                if i != lb {
                    assert(g[i] == g0[i]);
                }
            }
            assert forall|k2: Seq<char>| has_field(g, k2) implies reports_field(e, k2) by {
                let i = choose|i: int| 0 <= i < g.len() && g[i].0 == k2;
                if i != lb {
                    assert(g0[i].0 == k2);
                    assert(has_field(g0, k2));
                    let j = choose|j: int| 0 <= j < e0.len() && e0[j].0 == k2;
                    assert(e[j] == e0[j]);
                } else {
                    assert(e[e.len() - 1].0 == k2);
                }
            }
            assert forall|k2: Seq<char>| reports_field(e, k2) implies has_field(g, k2) by {
                let j = choose|j: int| 0 <= j < e.len() && e[j].0 == k2;
                if j < e.len() - 1 {
                    assert(e0[j] == e[j]);
                    assert(reports_field(e0, k2));
                    assert(has_field(g0, k2));
                    let i = choose|i: int| 0 <= i < g0.len() && g0[i].0 == k2;
                    assert(g[i].0 == k2);
                } else {
                    assert(g[lb].0 == k2);
                }
            }
        } else {
            assert(g == g0.insert(lb, (k, seq![m])));
            assert forall|i: int| 0 <= i < g0.len() implies g0[i].0 != k by {
                if i == lb {
                } else if i > lb {
                    if g0[i].0 == k {
                        assert(seq_lt(g0[lb].0, g0[i].0));
                    }
                } else {
                    lemma_lt_irreflexive(k);
                }
            }
            assert forall|j: int| 0 <= j < e0.len() implies e0[j].0 != k by {
                if e0[j].0 == k {
                    assert(reports_field(e0, k));
                    assert(has_field(g0, k));
                }
            }
            lemma_no_messages(e0, k);
            assert forall|i: int, j: int| 0 <= i < j < g.len() implies seq_lt(g[i].0, g[j].0) by {
                if j == lb {
                    assert(g[i] == g0[i]);
                } else if i == lb {
                    assert(g[j] == g0[j - 1]);
                    lemma_lt_total(k, g0[j - 1].0);
                } else if i > lb {
                    assert(g[i] == g0[i - 1]);
                    assert(g[j] == g0[j - 1]);
                } else if j > lb {
                    assert(g[i] == g0[i]);
                    assert(g[j] == g0[j - 1]);
                } else {
                    assert(g[i] == g0[i]);
                    assert(g[j] == g0[j]);
                }
            }
            assert forall|i: int| 0 <= i < g.len() implies #[trigger] g[i].1 == messages_for(
                e,
                g[i].0,
            ) by {
                if i < lb {
                    assert(g[i] == g0[i]);
                } else if i > lb {
                    assert(g[i] == g0[i - 1]);
                } else {
                    assert(messages_for(e0, k) == Seq::<Seq<char>>::empty());
                    assert(seq![m] =~= Seq::<Seq<char>>::empty().push(m));
                }
            }
            assert forall|k2: Seq<char>| has_field(g, k2) implies reports_field(e, k2) by {
                let i = choose|i: int| 0 <= i < g.len() && g[i].0 == k2;
                if i == lb {
                    assert(e[e.len() - 1].0 == k2);
                } else {
                    let i0 = if i < lb { i } else { i - 1 };
                    assert(g0[i0].0 == k2);
                    assert(has_field(g0, k2));
                    let j = choose|j: int| 0 <= j < e0.len() && e0[j].0 == k2;
                    assert(e[j] == e0[j]);
                }
            }
            assert forall|k2: Seq<char>| reports_field(e, k2) implies has_field(g, k2) by {
                let j = choose|j: int| 0 <= j < e.len() && e[j].0 == k2;
                if j < e.len() - 1 {
                    assert(e0[j] == e[j]);
                    assert(reports_field(e0, k2));
                    assert(has_field(g0, k2));
                    let i = choose|i: int| 0 <= i < g0.len() && g0[i].0 == k2;
                    if i < lb {
                        assert(g[i].0 == k2);
                    } else {
                        assert(g[i + 1].0 == k2);
                    }
                } else {
                    assert(g[lb].0 == k2);
                }
            }
        }
    }
}

/// The reported errors as character sequences.
pub open spec fn entries_view(e: Seq<(String, String)>) -> Seq<ErrorEntry> {
    e.map_values(|x: (String, String)| (x.0@, x.1@))
}

/// The groups as character sequences.
pub open spec fn groups_view(g: Seq<(String, Vec<String>)>) -> Seq<FieldGroup> {
    g.map_values(|x: (String, Vec<String>)| (x.0@, x.1@.map_values(|s: String| s@)))
}

fn add_entry(groups: &mut Vec<(String, Vec<String>)>, key: String, msg: String)
    ensures
        groups_view(final(groups)@) == add_message(groups_view(old(groups)@), key@, msg@),
{
    let ghost gv = groups_view(groups@);
    let key_chars = chars_of(key.as_str());
    let mut i: usize = 0;
    assert(gv.skip(0) == gv);
    while i < groups.len() && chars_lt(&chars_of(groups[i].0.as_str()), &key_chars)
        invariant
            i <= groups.len(),
            gv == groups_view(groups@),
            key_chars@ == key@,
            lower_bound(gv, key@) == i + lower_bound(gv.skip(i as int), key@),
        decreases groups.len() - i,
    {
        assert(gv.skip(i as int)[0] == gv[i as int]);
        assert(gv.skip(i as int).drop_first() == gv.skip(i + 1));
        i = i + 1;
    }
    if i < groups.len() {
        assert(gv.skip(i as int)[0] == gv[i as int]);
    }
    assert(lower_bound(gv, key@) == i);
    if i < groups.len() && groups[i].0 == key {
        let ghost old_g = groups@;
        let (k0, mut ms) = groups.remove(i);
        let ghost ms0 = ms@;
        assert(ms0 == old_g[i as int].1@);
        ms.push(msg);
        assert(ms@.map_values(|s: String| s@) =~= ms0.map_values(|s: String| s@).push(msg@));
        groups.insert(i, (k0, ms));
        assert(groups@ =~= old_g.update(i as int, groups@[i as int]));
        assert(groups_view(groups@) =~= gv.update(i as int, (key@, gv[i as int].1.push(msg@))));
    } else {
        let ghost old_g = groups@;
        let mut ms: Vec<String> = Vec::new();
        ms.push(msg);
        assert(ms@.map_values(|s: String| s@) =~= seq![msg@]);
        groups.insert(i, (key, ms));
        assert(groups@ =~= old_g.insert(i as int, groups@[i as int]));
        assert(groups_view(groups@) =~= gv.insert(i as int, (key@, seq![msg@])));
    }
}

fn group_entries(entries: &Vec<(String, String)>) -> (res: Vec<(String, Vec<String>)>)
    ensures
        groups_view(res@) == grouped(entries_view(entries@)),
{
    let ghost e = entries_view(entries@);
    let mut groups: Vec<(String, Vec<String>)> = Vec::new();
    let mut i: usize = 0;
    assert(groups_view(groups@) =~= grouped(e.take(0)));
    while i < entries.len()
        invariant
            i <= entries.len(),
            e == entries_view(entries@),
            groups_view(groups@) == grouped(e.take(i as int)),
        decreases entries.len() - i,
    {
        let key = entries[i].0.clone();
        let msg = entries[i].1.clone();
        add_entry(&mut groups, key, msg);
        assert(e.take(i + 1).drop_last() == e.take(i as int));
        i = i + 1;
    }
    assert(e.take(i as int) == e);
    groups
}

/// Writes the groups as `serde_json` writes a `Value::Object` (compact
/// `Display`): a `serde_json::Map` from each field to a `Value::Array` of
/// its messages as `Value::String`s. The map keeps its keys in `String`
/// order (byte order of UTF-8, which is code-point order); for fields
/// given in strictly increasing order that is the order given, so the
/// contract claims the text is the compact object of the groups as given,
/// strings escaped as `serde_json` escapes them.
#[verifier::external_body]
fn json_object_text(groups: &Vec<(String, Vec<String>)>) -> (res: String)
    requires
        fields_sorted(groups_view(groups@)),
    ensures
        res@ == json_object(groups_view(groups@)),
{
    let map: serde_json::Map<String, serde_json::Value> = groups
        .iter()
        .map(|(k, ms)| (k.clone(), serde_json::Value::Array(ms.iter().map(|m| serde_json::Value::String(m.clone())).collect())))
        .collect();
    serde_json::Value::Object(map).to_string()
}

/// The JSON text for a report whose errors (field path, message) are
/// `entries`, in the order reported.
pub fn entries_to_json(entries: &Vec<(String, String)>) -> (res: String)
    ensures
        res@ == report_json(entries_view(entries@)),
{
    let groups = group_entries(entries);
    proof {
        lemma_grouped(entries_view(entries@));
    }
    json_object_text(&groups)
}

#[verifier::external_type_specification]
#[verifier::external_body]
pub struct ExReport(garde::Report);

/// The errors that a `garde::Report` holds, in its iteration order: for
/// each, the path of the field as `garde::Path` displays it and the
/// error's message.
pub uninterp spec fn report_errors(report: garde::Report) -> Seq<ErrorEntry>;

/// Walks `garde::Report::iter`, handing out each `(Path, Error)` as the
/// path's display text and the error's `message()`; the contract claims
/// the items come out in the report's order, one for one.
#[verifier::external_body]
fn report_entries(report: &garde::Report) -> (res: Vec<(String, String)>)
    ensures
        entries_view(res@) == report_errors(*report),
{
    report.iter().map(|(path, error)| (path.to_string(), error.message().to_string())).collect()
}

/// Rendering of a validation report as a JSON string for API responses.
pub trait ReportExt {
    /// The report as JSON: an object with one member per field path, each
    /// an array of that field's error messages.
    fn to_json(&self) -> String;
}

impl ReportExt for garde::Report {
    fn to_json(&self) -> (res: String)
        ensures
            res@ == report_json(report_errors(*self)),
    {
        let entries = report_entries(self);
        entries_to_json(&entries)
    }
}

/// The JSON rendering of `report` (see [`ReportExt::to_json`]).
pub fn errors_to_json(report: &garde::Report) -> (res: String)
    ensures
        res@ == report_json(report_errors(*report)),
{
    report.to_json()
}

} // verus!
