//! The selection engine: from the current mode and its bindings to the ranked,
//! sorted legend with one chord per distinct effect.

use vstd::prelude::*;
use vstd::seq_lib::to_multiset_contains;
use vstd::string::*;
use crate::action::{
    Action, Category, RANK_HIDDEN, action_priority, binding_label, category_of, format_action,
    is_shown, lemma_same_actions, lemma_shown_rank_has_category, priority_category, rank,
    same_actions, should_show_action,
};
use crate::keys::{KeyChord, format_key, key_label};
use crate::mode::{Mode, base_or_normal, effective_base};
use crate::text::{
    lemma_text_le_antisymmetric, lemma_text_le_reflexive, lemma_text_le_total,
    lemma_text_le_transitive, text_at_most, text_le,
};

verus! {

/// One binding of the host: a chord and what it does, first action first.
#[derive(Clone, Debug, PartialEq, Eq)]
pub struct Binding {
    pub chord: KeyChord,
    pub actions: Vec<Action>,
}

/// What the host reports on every change of mode: the mode, the base mode
/// where the host designates one, and the bindings of the mode.
#[derive(Clone, Debug, PartialEq, Eq)]
pub struct ModeInfo {
    pub mode: Mode,
    pub base_mode: Option<Mode>,
    pub keybinds: Vec<Binding>,
}

/// One line of the legend.
#[derive(Clone, Debug, PartialEq, Eq)]
pub struct RankedEntry {
    pub priority: u8,
    pub key: String,
    pub action: String,
    pub category: Option<Category>,
}

/// What a line of the legend says.
pub struct Entry {
    pub priority: u8,
    pub key: Seq<char>,
    pub action: Seq<char>,
    pub category: Option<Category>,
}

impl View for RankedEntry {
    type V = Entry;

    open spec fn view(&self) -> Entry {
        Entry {
            priority: self.priority,
            key: self.key@,
            action: self.action@,
            category: self.category,
        }
    }
}

/// What the lines of a legend say, line by line.
pub open spec fn entry_views(lines: Seq<RankedEntry>) -> Seq<Entry> {
    lines.map_values(|line: RankedEntry| line@)
}

impl ModeInfo {
    /// True when the host is in its base mode.
    pub open spec fn in_base_mode(&self) -> bool {
        self.mode == effective_base(self.base_mode)
    }

    /// Tells whether the host is in its base mode.
    pub fn is_base_mode(&self) -> (r: bool)
        ensures
            r == self.in_base_mode(),
    {
        self.mode == base_or_normal(self.base_mode)
    }

    /// What the host reports before any change of mode: `Normal`, no base mode
    /// of its own, no bindings.
    pub fn new() -> (info: ModeInfo)
        ensures
            info.mode == Mode::Normal,
            info.base_mode is None,
            info.keybinds@.len() == 0,
    {
        ModeInfo { mode: Mode::Normal, base_mode: None, keybinds: Vec::new() }
    }
}

impl RankedEntry {
    /// A copy of the line.
    pub fn duplicate(&self) -> (copy: RankedEntry)
        ensures
            copy@ == self@,
    {
        RankedEntry {
            priority: self.priority,
            key: self.key.clone(),
            action: self.action.clone(),
            category: self.category,
        }
    }
}

// ---------------------------------------------------------------------------
// What the legend is
// ---------------------------------------------------------------------------

/// The line that a binding gives in the legend of `mode`.
pub open spec fn entry_of(mode: Mode, base_mode: Option<Mode>, binding: Binding) -> Entry {
    Entry {
        priority: rank(mode, base_mode, binding.actions@),
        key: key_label(binding.chord),
        action: binding_label(binding.actions@, base_mode),
        category: category_of(mode, rank(mode, base_mode, binding.actions@)),
    }
}

/// The lines of the bindings that the legend of `mode` shows, in the order of
/// the table.
pub open spec fn relevant_entries(mode: Mode, base_mode: Option<Mode>, table: Seq<Binding>) -> Seq<
    Entry,
>
    decreases table.len(),
{
    if table.len() == 0 {
        Seq::empty()
    } else {
        let earlier = relevant_entries(mode, base_mode, table.drop_last());
        if is_shown(mode, base_mode, table.last().actions@) {
            earlier.push(entry_of(mode, base_mode, table.last()))
        } else {
            earlier
        }
    }
}

/// The order of the legend: by rank, and within a rank by key label.
pub open spec fn entry_le(a: Entry, b: Entry) -> bool {
    a.priority < b.priority || (a.priority == b.priority && text_le(a.key, b.key))
}

/// True when every line is at most every later line.
pub open spec fn is_sorted(lines: Seq<Entry>) -> bool {
    forall|i: int, j: int| 0 <= i < j < lines.len() ==> entry_le(lines[i], lines[j])
}

/// The number of leading lines that are at most `line`.
pub open spec fn insertion_point(lines: Seq<Entry>, line: Entry) -> nat
    decreases lines.len(),
{
    if lines.len() == 0 || !entry_le(lines[0], line) {
        0
    } else {
        1 + insertion_point(lines.drop_first(), line)
    }
}

/// `lines` with `line` put in behind the leading lines that are at most it.
pub open spec fn insert_sorted(lines: Seq<Entry>, line: Entry) -> Seq<Entry> {
    lines.insert(insertion_point(lines, line) as int, line)
}

/// The lines in the order of the legend; lines with the same place keep the
/// order they came in.
pub open spec fn sort_entries(lines: Seq<Entry>) -> Seq<Entry>
    decreases lines.len(),
{
    if lines.len() == 0 {
        Seq::empty()
    } else {
        insert_sorted(sort_entries(lines.drop_last()), lines.last())
    }
}

/// True when some line has the action label `action`.
pub open spec fn has_action(lines: Seq<Entry>, action: Seq<char>) -> bool {
    exists|i: int| 0 <= i < lines.len() && #[trigger] lines[i].action == action
}

/// True when no two lines have the same action label.
pub open spec fn distinct_actions(lines: Seq<Entry>) -> bool {
    forall|i: int, j: int|
        0 <= i < j < lines.len() ==> #[trigger] lines[i].action != #[trigger] lines[j].action
}

/// The lines without those whose action label an earlier line has already.
pub open spec fn dedup_actions(lines: Seq<Entry>) -> Seq<Entry>
    decreases lines.len(),
{
    if lines.len() == 0 {
        Seq::empty()
    } else {
        let kept = dedup_actions(lines.drop_last());
        if has_action(kept, lines.last().action) {
            kept
        } else {
            kept.push(lines.last())
        }
    }
}

/// The legend of `mode`: the lines of the bindings it shows, sorted, one line
/// per action label.
pub open spec fn selection(mode: Mode, base_mode: Option<Mode>, table: Seq<Binding>) -> Seq<Entry> {
    dedup_actions(sort_entries(relevant_entries(mode, base_mode, table)))
}

// ---------------------------------------------------------------------------
// The order
// ---------------------------------------------------------------------------

/// Of two lines one is at most the other.
pub proof fn lemma_entry_le_total(a: Entry, b: Entry)
    ensures
        entry_le(a, b) || entry_le(b, a),
{
    lemma_text_le_total(a.key, b.key);
}

/// The order of the legend is transitive.
pub proof fn lemma_entry_le_transitive(a: Entry, b: Entry, c: Entry)
    requires
        entry_le(a, b),
        entry_le(b, c),
    ensures
        entry_le(a, c),
{
    if a.priority == b.priority && b.priority == c.priority {
        lemma_text_le_transitive(a.key, b.key, c.key);
    }
}

/// The leading lines that the insertion point counts are at most `line`, and
/// the line at the insertion point, if there is one, is not.
pub proof fn lemma_insertion_point(lines: Seq<Entry>, line: Entry)
    ensures
        insertion_point(lines, line) <= lines.len(),
        forall|i: int|
            0 <= i < insertion_point(lines, line) ==> entry_le(#[trigger] lines[i], line),
        insertion_point(lines, line) < lines.len() ==> !entry_le(
            lines[insertion_point(lines, line) as int],
            line,
        ),
    decreases lines.len(),
{
    if lines.len() == 0 || !entry_le(lines[0], line) {
    } else {
        let rest = lines.drop_first();
        lemma_insertion_point(rest, line);
        let p = insertion_point(rest, line) as int;
        assert forall|i: int| 0 <= i < p + 1 implies entry_le(#[trigger] lines[i], line) by {
            if i > 0 {
                assert(lines[i] == rest[i - 1]);
            }
        }
        if p + 1 < lines.len() {
            assert(lines[p + 1] == rest[p]);
        }
    }
}

/// Putting a line into sorted lines leaves them sorted.
pub proof fn lemma_insert_keeps_sorted(lines: Seq<Entry>, line: Entry)
    requires
        is_sorted(lines),
    ensures
        is_sorted(insert_sorted(lines, line)),
{
    lemma_insertion_point(lines, line);
    let p = insertion_point(lines, line) as int;
    let out = insert_sorted(lines, line);
    assert forall|i: int, j: int| 0 <= i < j < out.len() implies entry_le(out[i], out[j]) by {
        if j < p {
            assert(out[i] == lines[i] && out[j] == lines[j]);
        } else if j == p {
            assert(out[i] == lines[i]);
        } else if i == p {
            assert(out[j] == lines[j - 1]);
            lemma_entry_le_total(lines[p], line);
            if j - 1 > p {
                assert(entry_le(lines[p], lines[j - 1]));
                lemma_entry_le_transitive(line, lines[p], lines[j - 1]);
            }
        } else if i < p {
            assert(out[i] == lines[i] && out[j] == lines[j - 1]);
        } else {
            assert(out[i] == lines[i - 1] && out[j] == lines[j - 1]);
        }
    }
}

/// Sorting gives sorted lines, and the same lines as before: none is lost,
/// none is made up, none is doubled.
pub proof fn lemma_sort_entries(lines: Seq<Entry>)
    ensures
        is_sorted(sort_entries(lines)),
        sort_entries(lines).len() == lines.len(),
        sort_entries(lines).to_multiset() == lines.to_multiset(),
    decreases lines.len(),
{
    broadcast use {vstd::seq_lib::to_multiset_build, vstd::seq_lib::to_multiset_insert};

    if lines.len() == 0 {
        assert(lines =~= Seq::<Entry>::empty());
    } else {
        let earlier = lines.drop_last();
        lemma_sort_entries(earlier);
        lemma_insert_keeps_sorted(sort_entries(earlier), lines.last());
        lemma_insertion_point(sort_entries(earlier), lines.last());
        assert(lines =~= earlier.push(lines.last()));
    }
}

/// The test that picks the lines at one place of the order: those of the
/// given rank and key label.
pub open spec fn at_place(priority: u8, key: Seq<char>) -> spec_fn(Entry) -> bool {
    |line: Entry| line.priority == priority && line.key == key
}

/// Sorting is stable: the lines that share a rank and a key label come out in
/// the order in which they went in.
pub proof fn lemma_sort_is_stable(lines: Seq<Entry>, priority: u8, key: Seq<char>)
    ensures
        sort_entries(lines).filter(at_place(priority, key)) == lines.filter(
            at_place(priority, key),
        ),
    decreases lines.len(),
{
    let pred = at_place(priority, key);
    if lines.len() == 0 {
        assert(sort_entries(lines) =~= lines);
    } else {
        let earlier = lines.drop_last();
        let last = lines.last();
        let sorted = sort_entries(earlier);
        lemma_sort_is_stable(earlier, priority, key);
        lemma_sort_entries(earlier);
        lemma_insertion_point(sorted, last);
        let at = insertion_point(sorted, last) as int;
        let front = sorted.take(at);
        let back = sorted.skip(at);
        assert(sorted =~= front + back);
        assert(sort_entries(lines) =~= front.push(last) + back);
        assert(lines =~= earlier.push(last));
        Seq::filter_distributes_over_add(front, back, pred);
        Seq::filter_distributes_over_add(front.push(last), back, pred);
        front.lemma_filter_push(last, pred);
        earlier.lemma_filter_push(last, pred);
        if pred(last) {
            assert forall|j: int| 0 <= j < back.len() implies !pred(#[trigger] back[j]) by {
                if pred(back[j]) {
                    lemma_text_le_reflexive(key);
                    assert(entry_le(back[j], last));
                    if j > 0 {
                        assert(entry_le(sorted[at], sorted[at + j]));
                        lemma_entry_le_transitive(sorted[at], sorted[at + j], last);
                    }
                }
            }
            assert(back.all(|line: Entry| !pred(line)));
            back.lemma_all_neg_filter_empty(pred);
            assert(back.filter(pred) =~= Seq::<Entry>::empty());
            assert(front.filter(pred) + back.filter(pred) =~= front.filter(pred));
            assert(front.filter(pred).push(last) + back.filter(pred) =~= front.filter(pred).push(
                last,
            ));
        }
    }
}

/// True when two lines have the same place in the order: the same rank and the
/// same key label.
pub open spec fn same_place(a: Entry, b: Entry) -> bool {
    a.priority == b.priority && a.key == b.key
}

/// True when no two lines have the same place in the order.
pub open spec fn distinct_places(lines: Seq<Entry>) -> bool {
    forall|i: int, j: int| 0 <= i < j < lines.len() ==> !same_place(lines[i], lines[j])
}

/// Two lines that are each at most the other have the same place.
pub proof fn lemma_entry_le_antisymmetric(a: Entry, b: Entry)
    requires
        entry_le(a, b),
        entry_le(b, a),
    ensures
        same_place(a, b),
{
    lemma_text_le_antisymmetric(a.key, b.key);
}

proof fn lemma_distinct_places_of_same_lines(a: Seq<Entry>, b: Seq<Entry>)
    requires
        distinct_places(a),
        a.to_multiset() == b.to_multiset(),
    ensures
        distinct_places(b),
{
    assert forall|i: int, j: int| 0 <= i < j < b.len() implies !same_place(b[i], b[j]) by {
        if same_place(b[i], b[j]) {
            a.to_multiset_ensures();
            b.to_multiset_ensures();
            assert(b.contains(b[i]));
            to_multiset_contains(a, b[i]);
            to_multiset_contains(b, b[i]);
            assert(a.contains(b[i]));
            let p = choose|p: int| 0 <= p < a.len() && a[p] == b[i];
            let without_b = b.remove(i);
            let without_a = a.remove(p);
            without_a.to_multiset_ensures();
            without_b.to_multiset_ensures();
            assert(without_b[j - 1] == b[j]);
            assert(without_b.contains(b[j]));
            assert(without_a.to_multiset() =~= without_b.to_multiset());
            to_multiset_contains(without_a, b[j]);
            to_multiset_contains(without_b, b[j]);
            assert(without_a.contains(b[j]));
            let r = choose|r: int| 0 <= r < without_a.len() && without_a[r] == b[j];
            let q = if r < p {
                r
            } else {
                r + 1
            };
            assert(a[q] == b[j]);
            if q < p {
                assert(!same_place(a[q], a[p]));
            } else {
                assert(!same_place(a[p], a[q]));
            }
        }
    }
}

/// Sorted lines with distinct places are determined by which lines they are.
pub proof fn lemma_sorted_lines_are_unique(a: Seq<Entry>, b: Seq<Entry>)
    requires
        is_sorted(a),
        is_sorted(b),
        distinct_places(a),
        a.to_multiset() == b.to_multiset(),
    ensures
        a == b,
    decreases a.len(),
{
    a.to_multiset_ensures();
    b.to_multiset_ensures();
    if a.len() == 0 {
        assert(a =~= b);
    } else {
        assert(a.contains(a[0]));
        assert(b.contains(b[0]));
        to_multiset_contains(a, a[0]);
        to_multiset_contains(b, a[0]);
        to_multiset_contains(a, b[0]);
        to_multiset_contains(b, b[0]);
        assert(b.contains(a[0]));
        assert(a.contains(b[0]));
        let k = choose|k: int| 0 <= k < b.len() && b[k] == a[0];
        let m = choose|m: int| 0 <= m < a.len() && a[m] == b[0];
        if m > 0 {
            assert(entry_le(a[0], a[m]));
            if k > 0 {
                assert(entry_le(b[0], b[k]));
            }
            lemma_entry_le_antisymmetric(a[0], a[m]);
        }
        let rest_a = a.drop_first();
        let rest_b = b.drop_first();
        assert(rest_a =~= a.remove(0));
        assert(rest_b =~= b.remove(0));
        assert(rest_a.to_multiset() =~= rest_b.to_multiset());
        assert(is_sorted(rest_a)) by {
            assert forall|i: int, j: int| 0 <= i < j < rest_a.len() implies entry_le(
                rest_a[i],
                rest_a[j],
            ) by {
                assert(entry_le(a[i + 1], a[j + 1]));
            }
        }
        assert(is_sorted(rest_b)) by {
            assert forall|i: int, j: int| 0 <= i < j < rest_b.len() implies entry_le(
                rest_b[i],
                rest_b[j],
            ) by {
                assert(entry_le(b[i + 1], b[j + 1]));
            }
        }
        assert(distinct_places(rest_a)) by {
            assert forall|i: int, j: int| 0 <= i < j < rest_a.len() implies !same_place(
                rest_a[i],
                rest_a[j],
            ) by {
                assert(!same_place(a[i + 1], a[j + 1]));
            }
        }
        lemma_sorted_lines_are_unique(rest_a, rest_b);
        assert(a =~= seq![a[0]] + rest_a);
        assert(b =~= seq![b[0]] + rest_b);
    }
}

/// Where no two lines have the same place, the order in which the lines come
/// in makes no difference to the order in which they come out.
pub proof fn lemma_sort_ignores_arrival(a: Seq<Entry>, b: Seq<Entry>)
    requires
        distinct_places(a),
        a.to_multiset() == b.to_multiset(),
    ensures
        sort_entries(a) == sort_entries(b),
{
    lemma_sort_entries(a);
    lemma_sort_entries(b);
    lemma_distinct_places_of_same_lines(a, sort_entries(a));
    lemma_sorted_lines_are_unique(sort_entries(a), sort_entries(b));
}

// ---------------------------------------------------------------------------
// One line per action label
// ---------------------------------------------------------------------------

/// What is kept is a part of the lines in their order, without a repeated
/// action label, with a line for every action label there was, and that line
/// is the first one that has the label.
pub proof fn lemma_dedup_actions(lines: Seq<Entry>)
    ensures
        distinct_actions(dedup_actions(lines)),
        dedup_actions(lines).len() <= lines.len(),
        forall|i: int|
            0 <= i < lines.len() ==> has_action(dedup_actions(lines), #[trigger] lines[i].action),
        forall|k: int|
            0 <= k < dedup_actions(lines).len() ==> is_first_with_action(
                lines,
                #[trigger] dedup_actions(lines)[k],
            ),
        is_sorted(lines) ==> is_sorted(dedup_actions(lines)),
    decreases lines.len(),
{
    if lines.len() > 0 {
        let earlier = lines.drop_last();
        let last = lines.last();
        let kept = dedup_actions(earlier);
        let out = dedup_actions(lines);
        lemma_dedup_actions(earlier);
        assert forall|i: int| 0 <= i < lines.len() implies has_action(
            out,
            #[trigger] lines[i].action,
        ) by {
            if i < earlier.len() {
                assert(lines[i] == earlier[i]);
                let w = choose|w: int| 0 <= w < kept.len() && kept[w].action == earlier[i].action;
                assert(out[w].action == lines[i].action);
            } else if has_action(kept, last.action) {
            } else {
                assert(out[kept.len() as int].action == last.action);
            }
        }
        assert forall|k: int| 0 <= k < out.len() implies is_first_with_action(
            lines,
            #[trigger] out[k],
        ) by {
            if k < kept.len() {
                assert(out[k] == kept[k]);
                let i = choose|i: int| is_first_at(earlier, kept[k], i);
                assert(is_first_at(lines, out[k], i)) by {
                    assert(lines[i] == earlier[i]);
                    assert forall|h: int| 0 <= h < i implies lines[h].action != out[k].action by {
                        assert(lines[h] == earlier[h]);
                    }
                }
            } else {
                assert(out[k] == last);
                assert(is_first_at(lines, last, lines.len() - 1)) by {
                    assert forall|h: int| 0 <= h < lines.len() - 1 implies lines[h].action
                        != last.action by {
                        assert(lines[h] == earlier[h]);
                        if earlier[h].action == last.action {
                            assert(has_action(kept, earlier[h].action));
                        }
                    }
                }
            }
        }
        if is_sorted(lines) {
            assert(is_sorted(earlier)) by {
                assert forall|i: int, j: int| 0 <= i < j < earlier.len() implies entry_le(
                    earlier[i],
                    earlier[j],
                ) by {
                    assert(earlier[i] == lines[i] && earlier[j] == lines[j]);
                }
            }
            assert forall|i: int, j: int| 0 <= i < j < out.len() implies entry_le(
                out[i],
                out[j],
            ) by {
                if j < kept.len() {
                    assert(out[i] == kept[i] && out[j] == kept[j]);
                } else {
                    assert(out[i] == kept[i] && out[j] == last);
                    let h = choose|h: int| is_first_at(earlier, kept[i], h);
                    assert(lines[h] == earlier[h]);
                    assert(entry_le(lines[h], lines[lines.len() - 1]));
                }
            }
        }
    }
}

/// True when `lines[i]` is `line` and no earlier line has its action label.
pub open spec fn is_first_at(lines: Seq<Entry>, line: Entry, i: int) -> bool {
    &&& 0 <= i < lines.len()
    &&& lines[i] == line
    &&& forall|h: int| 0 <= h < i ==> (#[trigger] lines[h]).action != line.action
}

/// True when `line` is the first of `lines` that has its action label.
pub open spec fn is_first_with_action(lines: Seq<Entry>, line: Entry) -> bool {
    exists|i: int| is_first_at(lines, line, i)
}

/// Lines without a repeated action label are kept as they are.
pub proof fn lemma_dedup_of_distinct(lines: Seq<Entry>)
    requires
        distinct_actions(lines),
    ensures
        dedup_actions(lines) == lines,
    decreases lines.len(),
{
    if lines.len() == 0 {
        assert(lines =~= Seq::<Entry>::empty());
    } else {
        let earlier = lines.drop_last();
        assert(distinct_actions(earlier)) by {
            assert forall|i: int, j: int| 0 <= i < j < earlier.len() implies earlier[i].action
                != earlier[j].action by {
                assert(earlier[i] == lines[i] && earlier[j] == lines[j]);
            }
        }
        lemma_dedup_of_distinct(earlier);
        if has_action(earlier, lines.last().action) {
            let i = choose|i: int|
                0 <= i < earlier.len() && earlier[i].action == lines.last().action;
            assert(earlier[i] == lines[i]);
            assert(lines[i].action != lines[lines.len() - 1].action);
        }
        assert(lines =~= earlier.push(lines.last()));
    }
}

/// Taking out repeated action labels a second time changes nothing.
pub proof fn lemma_dedup_idempotent(lines: Seq<Entry>)
    ensures
        dedup_actions(dedup_actions(lines)) == dedup_actions(lines),
{
    lemma_dedup_actions(lines);
    lemma_dedup_of_distinct(dedup_actions(lines));
}

// ---------------------------------------------------------------------------
// What holds of every legend
// ---------------------------------------------------------------------------

/// Every line of the lines that a mode shows stems from a binding of the table
/// that the mode shows, and has a rank with a header.
pub proof fn lemma_relevant_entries(mode: Mode, base_mode: Option<Mode>, table: Seq<Binding>)
    ensures
        relevant_entries(mode, base_mode, table).len() <= table.len(),
        forall|k: int|
            0 <= k < relevant_entries(mode, base_mode, table).len() ==> stems_from(
                mode,
                base_mode,
                table,
                #[trigger] relevant_entries(mode, base_mode, table)[k],
            ),
        forall|i: int|
            0 <= i < table.len() && is_shown(mode, base_mode, (#[trigger] table[i]).actions@)
                ==> relevant_entries(mode, base_mode, table).contains(
                entry_of(mode, base_mode, table[i]),
            ),
    decreases table.len(),
{
    if table.len() > 0 {
        let earlier = table.drop_last();
        let out = relevant_entries(mode, base_mode, table);
        let before = relevant_entries(mode, base_mode, earlier);
        lemma_relevant_entries(mode, base_mode, earlier);
        assert forall|k: int| 0 <= k < out.len() implies stems_from(
            mode,
            base_mode,
            table,
            #[trigger] out[k],
        ) by {
            if k < before.len() {
                assert(out[k] == before[k]);
                let i = choose|i: int| stems_from_at(mode, base_mode, earlier, before[k], i);
                assert(table[i] == earlier[i]);
                assert(stems_from_at(mode, base_mode, table, out[k], i));
            } else {
                assert(stems_from_at(mode, base_mode, table, out[k], table.len() - 1));
            }
        }
        assert forall|i: int|
            0 <= i < table.len() && is_shown(
                mode,
                base_mode,
                (#[trigger] table[i]).actions@,
            ) implies out.contains(entry_of(mode, base_mode, table[i])) by {
            if i < earlier.len() {
                assert(table[i] == earlier[i]);
                let k = choose|k: int|
                    0 <= k < before.len() && before[k] == entry_of(mode, base_mode, earlier[i]);
                assert(out[k] == before[k]);
            } else {
                assert(out[out.len() - 1] == entry_of(mode, base_mode, table[i]));
            }
        }
    }
}

/// True when `line` is the line of the binding `table[i]`, which `mode` shows.
pub open spec fn stems_from_at(
    mode: Mode,
    base_mode: Option<Mode>,
    table: Seq<Binding>,
    line: Entry,
    i: int,
) -> bool {
    &&& 0 <= i < table.len()
    &&& is_shown(mode, base_mode, table[i].actions@)
    &&& line == entry_of(mode, base_mode, table[i])
}

/// True when `line` is the line of a binding of the table that `mode` shows.
pub open spec fn stems_from(
    mode: Mode,
    base_mode: Option<Mode>,
    table: Seq<Binding>,
    line: Entry,
) -> bool {
    exists|i: int| stems_from_at(mode, base_mode, table, line, i)
}

/// The legend is sorted by rank and key label, no two of its lines have the
/// same action label, every line stems from a binding that the mode shows,
/// and every action label that the mode shows has its line.
pub proof fn lemma_selection_sorted_and_distinct(
    mode: Mode,
    base_mode: Option<Mode>,
    table: Seq<Binding>,
)
    ensures
        is_sorted(selection(mode, base_mode, table)),
        distinct_actions(selection(mode, base_mode, table)),
        selection(mode, base_mode, table).len() <= table.len(),
        forall|k: int|
            0 <= k < selection(mode, base_mode, table).len() ==> stems_from(
                mode,
                base_mode,
                table,
                #[trigger] selection(mode, base_mode, table)[k],
            ),
        forall|i: int|
            0 <= i < table.len() && is_shown(mode, base_mode, (#[trigger] table[i]).actions@)
                ==> has_action(
                selection(mode, base_mode, table),
                binding_label(table[i].actions@, base_mode),
            ),
{
    broadcast use vstd::seq_lib::to_multiset_contains;

    let shown = relevant_entries(mode, base_mode, table);
    let sorted = sort_entries(shown);
    let legend = selection(mode, base_mode, table);
    lemma_relevant_entries(mode, base_mode, table);
    lemma_sort_entries(shown);
    lemma_dedup_actions(sorted);
    assert forall|k: int| 0 <= k < legend.len() implies stems_from(
        mode,
        base_mode,
        table,
        #[trigger] legend[k],
    ) by {
        let i = choose|i: int| is_first_at(sorted, legend[k], i);
        assert(sorted.contains(sorted[i]));
        assert(shown.to_multiset().contains(legend[k]));
        assert(shown.contains(legend[k]));
        let h = choose|h: int| 0 <= h < shown.len() && shown[h] == legend[k];
        assert(stems_from(mode, base_mode, table, shown[h]));
    }
    assert forall|i: int|
        0 <= i < table.len() && is_shown(
            mode,
            base_mode,
            (#[trigger] table[i]).actions@,
        ) implies has_action(legend, binding_label(table[i].actions@, base_mode)) by {
        let line = entry_of(mode, base_mode, table[i]);
        assert(shown.contains(line));
        assert(sorted.to_multiset().contains(line));
        assert(sorted.contains(line));
        let h = choose|h: int| 0 <= h < sorted.len() && sorted[h] == line;
        assert(has_action(legend, sorted[h].action));
    }
}

/// True when two tables say the same: binding by binding the same chord and
/// actions that say the same.
pub open spec fn same_table(a: Seq<Binding>, b: Seq<Binding>) -> bool {
    &&& a.len() == b.len()
    &&& forall|i: int|
        0 <= i < a.len() ==> (#[trigger] a[i]).chord == b[i].chord && same_actions(
            a[i].actions@,
            b[i].actions@,
        )
}

/// The legend depends on nothing but the mode, the base mode and what the
/// table says: two tables that say the same give the same legend, line by line
/// and character by character.
pub proof fn lemma_selection_deterministic(
    mode: Mode,
    base_mode: Option<Mode>,
    first: Seq<Binding>,
    second: Seq<Binding>,
)
    requires
        same_table(first, second),
    ensures
        selection(mode, base_mode, first) == selection(mode, base_mode, second),
{
    lemma_relevant_entries_of_same(mode, base_mode, first, second);
}

proof fn lemma_relevant_entries_of_same(
    mode: Mode,
    base_mode: Option<Mode>,
    first: Seq<Binding>,
    second: Seq<Binding>,
)
    requires
        same_table(first, second),
    ensures
        relevant_entries(mode, base_mode, first) == relevant_entries(mode, base_mode, second),
    decreases first.len(),
{
    if first.len() > 0 {
        let a = first.drop_last();
        let b = second.drop_last();
        assert(same_table(a, b)) by {
            assert forall|i: int| 0 <= i < a.len() implies (#[trigger] a[i]).chord == b[i].chord
                && same_actions(a[i].actions@, b[i].actions@) by {
                assert(a[i] == first[i] && b[i] == second[i]);
            }
        }
        lemma_relevant_entries_of_same(mode, base_mode, a, b);
        assert(first.last() == first[first.len() - 1]);
        lemma_same_actions(mode, base_mode, first.last().actions@, second.last().actions@);
    }
}

/// A table without a binding that the mode shows gives the empty legend.
pub proof fn lemma_selection_of_nothing_shown(
    mode: Mode,
    base_mode: Option<Mode>,
    table: Seq<Binding>,
)
    requires
        forall|i: int|
            0 <= i < table.len() ==> !is_shown(mode, base_mode, (#[trigger] table[i]).actions@),
    ensures
        selection(mode, base_mode, table).len() == 0,
{
    lemma_selection_sorted_and_distinct(mode, base_mode, table);
    if selection(mode, base_mode, table).len() > 0 {
        let line = selection(mode, base_mode, table)[0];
        let i = choose|i: int| stems_from_at(mode, base_mode, table, line, i);
        assert(is_shown(mode, base_mode, table[i].actions@));
    }
}

// ---------------------------------------------------------------------------
// Computing the legend
// ---------------------------------------------------------------------------

/// The line that a binding gives in the legend of `mode`.
pub fn rank_binding(mode: Mode, base_mode: Option<Mode>, binding: &Binding) -> (line: RankedEntry)
    ensures
        line@ == entry_of(mode, base_mode, *binding),
{
    let priority = action_priority(mode, base_mode, binding.actions.as_slice());
    RankedEntry {
        priority,
        key: format_key(&binding.chord),
        action: format_action(binding.actions.as_slice(), base_mode),
        category: priority_category(mode, priority),
    }
}

/// Tells whether `a` comes at or before `b` in the order of the legend.
pub fn entry_at_most(a: &RankedEntry, b: &RankedEntry) -> (r: bool)
    ensures
        r == entry_le(a@, b@),
{
    a.priority < b.priority || (a.priority == b.priority && text_at_most(
        a.key.as_str(),
        b.key.as_str(),
    ))
}

/// Puts a line into sorted lines, behind the lines that are at most it.
pub fn insert_entry(lines: &mut Vec<RankedEntry>, line: RankedEntry)
    ensures
        entry_views(final(lines)@) == insert_sorted(entry_views(old(lines)@), line@),
{
    let ghost before = entry_views(lines@);
    let mut at: usize = 0;
    assert(before.skip(0) =~= before);
    while at < lines.len() && entry_at_most(&lines[at], &line)
        invariant
            at <= lines.len(),
            before == entry_views(lines@),
            insertion_point(before, line@) == at + insertion_point(before.skip(at as int), line@),
        decreases lines.len() - at,
    {
        assert(before.skip(at as int)[0] == lines[at as int]@);
        assert(before.skip(at as int).drop_first() =~= before.skip(at + 1));
        at = at + 1;
    }
    proof {
        if at < lines.len() {
            assert(before.skip(at as int)[0] == lines[at as int]@);
        }
        assert(insertion_point(before, line@) == at);
    }
    lines.insert(at, line);
    assert(entry_views(lines@) =~= before.insert(at as int, line@));
}

/// Tells whether one of the lines has the action label `action`.
pub fn contains_action(lines: &Vec<RankedEntry>, action: &String) -> (r: bool)
    ensures
        r == has_action(entry_views(lines@), action@),
{
    let mut i: usize = 0;
    while i < lines.len()
        invariant
            i <= lines.len(),
            forall|h: int| 0 <= h < i ==> (#[trigger] entry_views(lines@)[h]).action != action@,
        decreases lines.len() - i,
    {
        if lines[i].action == *action {
            assert(entry_views(lines@)[i as int].action == action@);
            return true;
        }
        i = i + 1;
    }
    false
}

/// Keeps, of sorted lines, the first line of every action label.
pub fn dedup_entries(lines: &Vec<RankedEntry>) -> (kept: Vec<RankedEntry>)
    ensures
        entry_views(kept@) == dedup_actions(entry_views(lines@)),
{
    let mut kept: Vec<RankedEntry> = Vec::new();
    let mut i: usize = 0;
    let ghost all = entry_views(lines@);
    assert(all.take(0) =~= Seq::<Entry>::empty());
    assert(entry_views(kept@) =~= Seq::<Entry>::empty());
    while i < lines.len()
        invariant
            i <= lines.len(),
            all == entry_views(lines@),
            entry_views(kept@) == dedup_actions(all.take(i as int)),
        decreases lines.len() - i,
    {
        proof {
            assert(all.take(i + 1).drop_last() =~= all.take(i as int));
            assert(all.take(i + 1).last() == lines[i as int]@);
        }
        if !contains_action(&kept, &lines[i].action) {
            let ghost before = entry_views(kept@);
            kept.push(lines[i].duplicate());
            assert(entry_views(kept@) =~= before.push(lines[i as int]@));
        }
        i = i + 1;
    }
    assert(all.take(i as int) =~= all);
    kept
}

/// The legend of the mode that the host is in: the bindings that the mode
/// shows, ranked, sorted by rank and key label, one line per action label.
pub fn get_keybindings(info: &ModeInfo) -> (legend: Vec<RankedEntry>)
    ensures
        entry_views(legend@) == selection(info.mode, info.base_mode, info.keybinds@),
        is_sorted(entry_views(legend@)),
        distinct_actions(entry_views(legend@)),
        legend@.len() <= info.keybinds@.len(),
        forall|k: int|
            0 <= k < legend@.len() ==> (#[trigger] legend@[k]).priority < RANK_HIDDEN
                && legend@[k].category is Some,
{
    let mode = info.mode;
    let base_mode = info.base_mode;
    let mut sorted: Vec<RankedEntry> = Vec::new();
    let mut i: usize = 0;
    let ghost table = info.keybinds@;
    assert(table.take(0) =~= Seq::<Binding>::empty());
    assert(entry_views(sorted@) =~= Seq::<Entry>::empty());
    while i < info.keybinds.len()
        invariant
            i <= info.keybinds.len(),
            table == info.keybinds@,
            mode == info.mode,
            base_mode == info.base_mode,
            entry_views(sorted@) == sort_entries(
                relevant_entries(mode, base_mode, table.take(i as int)),
            ),
        decreases info.keybinds.len() - i,
    {
        let binding = &info.keybinds[i];
        proof {
            assert(table.take(i + 1).drop_last() =~= table.take(i as int));
            assert(table.take(i + 1).last() == *binding);
        }
        if should_show_action(mode, base_mode, binding.actions.as_slice()) {
            let ghost shown = relevant_entries(mode, base_mode, table.take(i as int));
            let line = rank_binding(mode, base_mode, binding);
            insert_entry(&mut sorted, line);
            assert(shown.push(line@).drop_last() =~= shown);
        }
        i = i + 1;
    }
    assert(table.take(i as int) =~= table);
    let legend = dedup_entries(&sorted);
    proof {
        lemma_selection_sorted_and_distinct(mode, base_mode, table);
        assert forall|k: int| 0 <= k < legend@.len() implies (#[trigger] legend@[k]).priority
            < RANK_HIDDEN && legend@[k].category is Some by {
            let line = entry_views(legend@)[k];
            assert(line == legend@[k]@);
            let h = choose|h: int| stems_from_at(mode, base_mode, table, line, h);
            lemma_shown_rank_has_category(mode, base_mode, table[h].actions@);
        }
    }
    legend
}

} // verus!
