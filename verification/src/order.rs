//! Environment entries and the deterministic display order.
//!
//! Variables are visited in lexicographic ascending order of their names,
//! comparing Unicode scalar values position by position.

use vstd::prelude::*;

verus! {

/// One environment variable: its name and its value.
pub struct EnvEntry {
    pub name: Vec<char>,
    pub value: Vec<char>,
}

/// Mathematical image of an [`EnvEntry`].
#[verifier::ext_equal]
pub ghost struct EnvEntryView {
    pub name: Seq<char>,
    pub value: Seq<char>,
}

impl View for EnvEntry {
    type V = EnvEntryView;

    open spec fn view(&self) -> EnvEntryView {
        EnvEntryView { name: self.name@, value: self.value@ }
    }
}

/// The views of a sequence of entries.
pub open spec fn entry_views(s: Seq<EnvEntry>) -> Seq<EnvEntryView> {
    s.map_values(|e: EnvEntry| e@)
}

/// Lexicographic order on character sequences from position `i` on,
/// comparing Unicode scalar values.
pub open spec fn lex_le_from(a: Seq<char>, b: Seq<char>, i: int) -> bool
    decreases a.len() - i,
    when 0 <= i <= a.len() && i <= b.len()
{
    if i == a.len() {
        true
    } else if i == b.len() {
        false
    } else if (a[i] as u32) < (b[i] as u32) {
        true
    } else if (a[i] as u32) > (b[i] as u32) {
        false
    } else {
        lex_le_from(a, b, i + 1)
    }
}

/// `a` is lexicographically at most `b`.
pub open spec fn lex_le(a: Seq<char>, b: Seq<char>) -> bool {
    lex_le_from(a, b, 0)
}

/// Compares two names lexicographically by Unicode scalar value.
pub fn lex_leq(a: &Vec<char>, b: &Vec<char>) -> (r: bool)
    ensures
        r == lex_le(a@, b@),
{
    let mut i: usize = 0;
    loop
        invariant
            0 <= i <= a.len(),
            i <= b.len(),
            lex_le(a@, b@) == lex_le_from(a@, b@, i as int),
        decreases a.len() - i,
    {
        if i == a.len() {
            return true;
        }
        if i == b.len() {
            return false;
        }
        let ca = a[i] as u32;
        let cb = b[i] as u32;
        if ca < cb {
            return true;
        }
        if ca > cb {
            return false;
        }
        i = i + 1;
    }
}

/// The entry `e` placed before the first element of `s` that it is
/// lexicographically at most equal to.
pub open spec fn spec_insert(e: EnvEntryView, s: Seq<EnvEntryView>) -> Seq<EnvEntryView>
    decreases s.len(),
{
    if s.len() == 0 {
        seq![e]
    } else if lex_le(e.name, s[0].name) {
        seq![e] + s
    } else {
        seq![s[0]] + spec_insert(e, s.drop_first())
    }
}

/// The suffix of `s` from `k` on, sorted by insertion.
pub open spec fn sort_from(s: Seq<EnvEntryView>, k: int) -> Seq<EnvEntryView>
    decreases s.len() - k,
    when 0 <= k <= s.len()
{
    if k == s.len() {
        Seq::empty()
    } else {
        spec_insert(s[k], sort_from(s, k + 1))
    }
}

/// `s` sorted into lexicographic ascending order of names.
pub open spec fn spec_sort(s: Seq<EnvEntryView>) -> Seq<EnvEntryView> {
    sort_from(s, 0)
}

proof fn lemma_insert_unfold_at(e: EnvEntryView, s: Seq<EnvEntryView>, j: int)
    requires
        0 <= j < s.len(),
        !lex_le(e.name, s[j].name),
    ensures
        spec_insert(e, s.skip(j)) == seq![s[j]] + spec_insert(e, s.skip(j + 1)),
{
    assert(s.skip(j).len() > 0);
    assert(s.skip(j)[0] == s[j]);
    assert(s.skip(j).drop_first() =~~= s.skip(j + 1));
}

/// Inserts `e` into the sorted vector `acc`, keeping order.
fn insert_sorted(acc: &mut Vec<EnvEntry>, e: EnvEntry)
    ensures
        entry_views(final(acc)@) == spec_insert(e@, entry_views(old(acc)@)),
{
    let ghost s = entry_views(acc@);
    let ghost ev = e@;
    let mut j: usize = 0;
    proof {
        assert(s.skip(0) =~~= s);
        assert(s.take(0) + spec_insert(ev, s) =~~= spec_insert(ev, s));
    }
    loop
        invariant
            0 <= j <= acc.len(),
            entry_views(acc@) == s,
            s == entry_views(old(acc)@),
            ev == e@,
            spec_insert(ev, s) == s.take(j as int) + spec_insert(ev, s.skip(j as int)),
        decreases acc.len() - j,
    {
        if j == acc.len() {
            proof {
                assert(s.skip(j as int) =~~= Seq::<EnvEntryView>::empty());
                assert(spec_insert(ev, Seq::<EnvEntryView>::empty()) == seq![ev]);
            }
            acc.push(e);
            proof {
                assert(entry_views(acc@) =~~= s.take(s.len() as int) + seq![ev]);
                assert(entry_views(acc@) == spec_insert(ev, s));
            }
            return ;
        }
        if lex_leq(&e.name, &acc[j].name) {
            proof {
                assert(s.skip(j as int).len() > 0);
                assert(s.skip(j as int)[0] == s[j as int]);
                assert(spec_insert(ev, s.skip(j as int)) == seq![ev] + s.skip(j as int));
            }
            acc.insert(j, e);
            proof {
                assert(entry_views(acc@) =~~= s.take(j as int) + (seq![ev] + s.skip(j as int)));
                assert(entry_views(acc@) == spec_insert(ev, s));
            }
            return ;
        }
        proof {
            lemma_insert_unfold_at(ev, s, j as int);
            assert(s.take(j as int) + (seq![s[j as int]] + spec_insert(ev, s.skip(j + 1)))
                =~~= s.take(j + 1) + spec_insert(ev, s.skip(j + 1)));
        }
        j = j + 1;
    }
}

/// Names ascend throughout `s`.
pub open spec fn sorted_names(s: Seq<EnvEntryView>) -> bool {
    forall|x: int, y: int| 0 <= x < y < s.len() ==> lex_le(s[x].name, s[y].name)
}

proof fn lemma_lex_total_from(a: Seq<char>, b: Seq<char>, i: int)
    requires
        0 <= i <= a.len(),
        i <= b.len(),
    ensures
        lex_le_from(a, b, i) || lex_le_from(b, a, i),
    decreases a.len() - i,
{
    if i < a.len() && i < b.len() && (a[i] as u32) == (b[i] as u32) {
        lemma_lex_total_from(a, b, i + 1);
    }
}

/// The order is total: of any two names, one is at most the other.
pub proof fn lemma_lex_le_total(a: Seq<char>, b: Seq<char>)
    ensures
        lex_le(a, b) || lex_le(b, a),
{
    lemma_lex_total_from(a, b, 0);
}

proof fn lemma_lex_trans_from(a: Seq<char>, b: Seq<char>, c: Seq<char>, i: int)
    requires
        0 <= i <= a.len(),
        i <= b.len(),
        i <= c.len(),
        lex_le_from(a, b, i),
        lex_le_from(b, c, i),
    ensures
        lex_le_from(a, c, i),
    decreases a.len() - i,
{
    if i < a.len() {
        assert(i < b.len());
        assert(i < c.len());
        if (a[i] as u32) == (b[i] as u32) && (b[i] as u32) == (c[i] as u32) {
            lemma_lex_trans_from(a, b, c, i + 1);
        }
    }
}

/// The order is transitive.
pub proof fn lemma_lex_le_trans(a: Seq<char>, b: Seq<char>, c: Seq<char>)
    requires
        lex_le(a, b),
        lex_le(b, c),
    ensures
        lex_le(a, c),
{
    lemma_lex_trans_from(a, b, c, 0);
}

proof fn lemma_insert_elements(e: EnvEntryView, s: Seq<EnvEntryView>)
    ensures
        spec_insert(e, s).len() == s.len() + 1,
        forall|k: int|
            0 <= k < spec_insert(e, s).len() ==> spec_insert(e, s)[k] == e || s.contains(
                #[trigger] spec_insert(e, s)[k],
            ),
    decreases s.len(),
{
    if s.len() == 0 {
    } else if lex_le(e.name, s[0].name) {
    } else {
        let s1 = s.drop_first();
        lemma_insert_elements(e, s1);
        assert forall|k: int| 0 <= k < spec_insert(e, s).len() implies spec_insert(e, s)[k] == e
            || s.contains(#[trigger] spec_insert(e, s)[k]) by {
            if k == 0 {
                assert(spec_insert(e, s)[0] == s[0]);
            } else {
                let x = spec_insert(e, s)[k];
                assert(x == spec_insert(e, s1)[k - 1]);
                if x != e {
                    let j = choose|j: int| 0 <= j < s1.len() && s1[j] == x;
                    assert(s[j + 1] == x);
                }
            }
        }
    }
}

proof fn lemma_insert_keeps_sorted(e: EnvEntryView, s: Seq<EnvEntryView>)
    requires
        sorted_names(s),
    ensures
        sorted_names(spec_insert(e, s)),
    decreases s.len(),
{
    if s.len() == 0 {
    } else if lex_le(e.name, s[0].name) {
        let r = seq![e] + s;
        assert forall|x: int, y: int| 0 <= x < y < r.len() implies lex_le(r[x].name, r[y].name) by {
            if x == 0 {
                if y > 1 {
                    assert(lex_le(s[0].name, s[y - 1].name));
                    lemma_lex_le_trans(e.name, s[0].name, s[y - 1].name);
                }
            }
        }
    } else {
        lemma_lex_le_total(e.name, s[0].name);
        let s1 = s.drop_first();
        assert forall|x: int, y: int| 0 <= x < y < s1.len() implies lex_le(
            s1[x].name,
            s1[y].name,
        ) by {
            assert(s1[x] == s[x + 1]);
            assert(s1[y] == s[y + 1]);
        }
        lemma_insert_keeps_sorted(e, s1);
        lemma_insert_elements(e, s1);
        let r1 = spec_insert(e, s1);
        let r = seq![s[0]] + r1;
        assert forall|x: int, y: int| 0 <= x < y < r.len() implies lex_le(r[x].name, r[y].name) by {
            if x == 0 {
                let t = r1[y - 1];
                if t == e {
                    assert(lex_le(s[0].name, e.name));
                } else {
                    let j = choose|j: int| 0 <= j < s1.len() && s1[j] == t;
                    assert(s[j + 1] == t);
                    assert(lex_le(s[0].name, s[j + 1].name));
                }
            } else {
                assert(r[x] == r1[x - 1]);
                assert(r[y] == r1[y - 1]);
            }
        }
    }
}

proof fn lemma_sort_from_sorted(s: Seq<EnvEntryView>, k: int)
    requires
        0 <= k <= s.len(),
    ensures
        sorted_names(sort_from(s, k)),
    decreases s.len() - k,
{
    if k < s.len() {
        lemma_sort_from_sorted(s, k + 1);
        lemma_insert_keeps_sorted(s[k], sort_from(s, k + 1));
    }
}

proof fn lemma_insert_multiset(e: EnvEntryView, s: Seq<EnvEntryView>)
    ensures
        spec_insert(e, s).to_multiset() == s.to_multiset().insert(e),
    decreases s.len(),
{
    broadcast use vstd::seq_lib::to_multiset_insert;

    if s.len() == 0 {
        assert(spec_insert(e, s) =~= s.insert(0, e));
        assert(s.insert(0, e).to_multiset() == s.to_multiset().insert(e));
    } else if lex_le(e.name, s[0].name) {
        assert(seq![e] + s =~= s.insert(0, e));
        assert(s.insert(0, e).to_multiset() == s.to_multiset().insert(e));
    } else {
        let s1 = s.drop_first();
        lemma_insert_multiset(e, s1);
        let r1 = spec_insert(e, s1);
        assert(seq![s[0]] + r1 =~= r1.insert(0, s[0]));
        assert(r1.insert(0, s[0]).to_multiset() == r1.to_multiset().insert(s[0]));
        assert(s =~= s1.insert(0, s[0]));
        assert(s1.insert(0, s[0]).to_multiset() == s1.to_multiset().insert(s[0]));
        assert(s1.to_multiset().insert(e).insert(s[0]) =~= s1.to_multiset().insert(
            s[0],
        ).insert(e)) by {
            broadcast use vstd::multiset::group_multiset_axioms;

        }
    }
}

proof fn lemma_sort_from_multiset(s: Seq<EnvEntryView>, k: int)
    requires
        0 <= k <= s.len(),
    ensures
        sort_from(s, k).to_multiset() == s.skip(k).to_multiset(),
    decreases s.len() - k,
{
    broadcast use vstd::seq_lib::to_multiset_insert;

    if k == s.len() {
        assert(s.skip(k) =~= Seq::<EnvEntryView>::empty());
    } else {
        lemma_sort_from_multiset(s, k + 1);
        lemma_insert_multiset(s[k], sort_from(s, k + 1));
        assert(s.skip(k) =~= s.skip(k + 1).insert(0, s[k]));
        assert(s.skip(k + 1).insert(0, s[k]).to_multiset() == s.skip(k + 1).to_multiset().insert(
            s[k],
        ));
    }
}

/// Sorting reorders and nothing more: the result holds the same entries,
/// as a multiset, and its names ascend lexicographically.
pub proof fn lemma_sort_is_ascending_permutation(s: Seq<EnvEntryView>)
    ensures
        spec_sort(s).to_multiset() == s.to_multiset(),
        sorted_names(spec_sort(s)),
{
    lemma_sort_from_multiset(s, 0);
    assert(s.skip(0) =~= s);
    lemma_sort_from_sorted(s, 0);
}

/// Sorts the entries into lexicographic ascending order of names.
pub fn sort_entries(entries: Vec<EnvEntry>) -> (r: Vec<EnvEntry>)
    ensures
        entry_views(r@) == spec_sort(entry_views(entries@)),
{
    let ghost orig = entry_views(entries@);
    let mut rest = entries;
    let mut acc: Vec<EnvEntry> = Vec::new();
    proof {
        assert(entry_views(rest@) =~~= orig.take(rest@.len() as int));
        assert(entry_views(acc@) =~~= sort_from(orig, orig.len() as int));
    }
    loop
        invariant
            rest@.len() <= orig.len(),
            entry_views(rest@) == orig.take(rest@.len() as int),
            entry_views(acc@) == sort_from(orig, rest@.len() as int),
            orig == entry_views(entries@),
        decreases rest.len(),
    {
        let ghost k = rest@.len() as int;
        match rest.pop() {
            None => {
                return acc;
            },
            Some(e) => {
                proof {
                    assert(orig.take(k)[k - 1] == orig[k - 1]);
                    assert(e@ == orig[k - 1]);
                    assert(entry_views(rest@) =~~= orig.take(k - 1));
                }
                insert_sorted(&mut acc, e);
                proof {
                    assert(entry_views(acc@) == spec_insert(orig[k - 1], sort_from(orig, k)));
                    assert(spec_insert(orig[k - 1], sort_from(orig, k)) == sort_from(orig, k - 1));
                }
            },
        }
    }
}

} // verus!
