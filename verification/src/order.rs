//! Case-sensitive lexicographic order on names, and the stable sort the
//! option enumerator applies to merged directory listings.
//!
//! The sort is specified as repeated insertion: each element goes after
//! every already-placed element whose name is not greater, so entries with
//! equal names keep their original relative order (ties keep runner order).

use vstd::prelude::*;

use crate::models::EntryModel;
use crate::models::FileSystemEntry;

verus! {

/// Case-sensitive lexicographic order on character sequences, comparing
/// code points.
pub open spec fn lex_le(a: Seq<char>, b: Seq<char>) -> bool
    decreases a.len(),
{
    if a.len() == 0 {
        true
    } else if b.len() == 0 {
        false
    } else if a[0] == b[0] {
        lex_le(a.drop_first(), b.drop_first())
    } else {
        a[0] < b[0]
    }
}

/// `lex_le` relates every pair of sequences one way or the other.
pub proof fn lemma_lex_le_total(a: Seq<char>, b: Seq<char>)
    ensures
        lex_le(a, b) || lex_le(b, a),
    decreases a.len(),
{
    if a.len() == 0 {
    } else if b.len() == 0 {
    } else if a[0] == b[0] {
        lemma_lex_le_total(a.drop_first(), b.drop_first());
    }
}

/// `lex_le` is transitive.
pub proof fn lemma_lex_le_trans(a: Seq<char>, b: Seq<char>, c: Seq<char>)
    requires
        lex_le(a, b),
        lex_le(b, c),
    ensures
        lex_le(a, c),
    decreases a.len(),
{
    if a.len() == 0 {
    } else {
        assert(b.len() > 0);
        assert(c.len() > 0);
        if a[0] == b[0] && b[0] == c[0] {
            lemma_lex_le_trans(a.drop_first(), b.drop_first(), c.drop_first());
        }
    }
}

/// Two sequences with a common prefix compare as their suffixes do.
proof fn lemma_lex_le_skip(a: Seq<char>, b: Seq<char>, i: int)
    requires
        0 <= i <= a.len(),
        i <= b.len(),
        forall|j: int| 0 <= j < i ==> a[j] == b[j],
    ensures
        lex_le(a, b) == lex_le(a.skip(i), b.skip(i)),
    decreases i,
{
    if i > 0 {
        lemma_lex_le_skip(a.drop_first(), b.drop_first(), i - 1);
        assert(a.drop_first().skip(i - 1) =~= a.skip(i));
        assert(b.drop_first().skip(i - 1) =~= b.skip(i));
    } else {
        assert(a.skip(0) =~= a);
        assert(b.skip(0) =~= b);
    }
}

/// Lexicographic comparison of two strings, character by character.
pub fn str_lex_le(a: &str, b: &str) -> (r: bool)
    ensures
        r == lex_le(a@, b@),
{
    let alen = a.unicode_len();
    let blen = b.unicode_len();
    let min: usize = if alen < blen {
        alen
    } else {
        blen
    };
    let mut i: usize = 0;
    while i < min
        invariant
            0 <= i <= min,
            alen == a@.len(),
            blen == b@.len(),
            min <= alen,
            min <= blen,
            alen <= blen || min == blen,
            blen <= alen || min == alen,
            forall|j: int| 0 <= j < i ==> a@[j] == b@[j],
        decreases min - i,
    {
        let ca = a.get_char(i);
        let cb = b.get_char(i);
        if ca != cb {
            proof {
                lemma_lex_le_skip(a@, b@, i as int);
                assert(a@.skip(i as int)[0] == a@[i as int]);
                assert(b@.skip(i as int)[0] == b@[i as int]);
            }
            return (ca as u32) < (cb as u32);
        }
        i = i + 1;
    }
    proof {
        lemma_lex_le_skip(a@, b@, min as int);
        assert(a@.skip(min as int).len() == alen - min);
        assert(b@.skip(min as int).len() == blen - min);
    }
    alen <= blen
}

/// The entries are ordered by name.
pub open spec fn entries_sorted(s: Seq<EntryModel>) -> bool {
    forall|i: int, j: int| 0 <= i < j < s.len() ==> lex_le(s[i].name, s[j].name)
}

/// Where an entry is inserted into an already sorted run: directly before
/// the first element whose name is greater, so after every equal name.
pub open spec fn insert_position(s: Seq<EntryModel>, e: EntryModel) -> int
    decreases s.len(),
{
    if s.len() == 0 {
        0
    } else if lex_le(s[0].name, e.name) {
        1 + insert_position(s.drop_first(), e)
    } else {
        0
    }
}

/// One step of the stable sort: `e` inserted at its position.
pub open spec fn spec_insert_entry(s: Seq<EntryModel>, e: EntryModel) -> Seq<EntryModel> {
    s.insert(insert_position(s, e), e)
}

/// The stable sort itself: each element, in input order, inserted into the
/// sorted run of the elements before it.
pub open spec fn spec_sort_entries(s: Seq<EntryModel>) -> Seq<EntryModel>
    decreases s.len(),
{
    if s.len() == 0 {
        Seq::empty()
    } else {
        spec_insert_entry(spec_sort_entries(s.drop_last()), s.last())
    }
}

/// The insert position is in bounds; everything before it is not greater
/// than the inserted name, and the element at it (if any) is greater.
pub proof fn lemma_insert_position_char(s: Seq<EntryModel>, e: EntryModel)
    ensures
        0 <= insert_position(s, e) <= s.len(),
        forall|j: int| 0 <= j < insert_position(s, e) ==> lex_le(s[j].name, e.name),
        insert_position(s, e) < s.len() ==> !lex_le(s[insert_position(s, e)].name, e.name),
    decreases s.len(),
{
    if s.len() == 0 {
    } else if lex_le(s[0].name, e.name) {
        lemma_insert_position_char(s.drop_first(), e);
        assert forall|j: int| 0 <= j < insert_position(s, e) implies lex_le(
            s[j].name,
            e.name,
        ) by {
            if j > 0 {
                assert(s.drop_first()[j - 1] == s[j]);
            }
        }
        assert(insert_position(s, e) < s.len() ==> s.drop_first()[insert_position(s, e) - 1]
            == s[insert_position(s, e)]);
    }
}

/// Inserting into a sorted run keeps it sorted.
pub proof fn lemma_insert_entry_sorted(s: Seq<EntryModel>, e: EntryModel)
    requires
        entries_sorted(s),
    ensures
        entries_sorted(spec_insert_entry(s, e)),
{
    let p = insert_position(s, e);
    lemma_insert_position_char(s, e);
    let t = s.insert(p, e);
    assert forall|i: int, j: int| 0 <= i < j < t.len() implies lex_le(t[i].name, t[j].name) by {
        if i < p && j > p {
            assert(t[i] == s[i]);
            assert(t[j] == s[j - 1]);
        }
        if i == p && j > p {
            assert(t[i] == e);
            assert(t[j] == s[j - 1]);
            assert(!lex_le(s[p].name, e.name));
            lemma_lex_le_total(s[p].name, e.name);
            if j - 1 > p {
                lemma_lex_le_trans(e.name, s[p].name, s[j - 1].name);
            }
        }
    }
}

/// Inserting adds exactly the inserted element to the multiset of entries.
pub proof fn lemma_insert_entry_multiset(s: Seq<EntryModel>, e: EntryModel)
    ensures
        spec_insert_entry(s, e).to_multiset() == s.to_multiset().insert(e),
{
    lemma_insert_position_char(s, e);
    vstd::seq_lib::to_multiset_insert(s, insert_position(s, e), e);
}

/// The sorted sequence is ordered by name.
pub proof fn lemma_sort_entries_sorted(s: Seq<EntryModel>)
    ensures
        entries_sorted(spec_sort_entries(s)),
    decreases s.len(),
{
    if s.len() > 0 {
        lemma_sort_entries_sorted(s.drop_last());
        lemma_insert_entry_sorted(spec_sort_entries(s.drop_last()), s.last());
    }
}

/// Sorting permutes the input: the multiset of entries is unchanged.
pub proof fn lemma_sort_entries_multiset(s: Seq<EntryModel>)
    ensures
        spec_sort_entries(s).to_multiset() == s.to_multiset(),
    decreases s.len(),
{
    if s.len() == 0 {
        assert(s =~= Seq::<EntryModel>::empty());
    } else {
        lemma_sort_entries_multiset(s.drop_last());
        lemma_insert_entry_multiset(spec_sort_entries(s.drop_last()), s.last());
        assert(s =~= s.drop_last().push(s.last()));
        vstd::seq_lib::to_multiset_build(s.drop_last(), s.last());
        assert(spec_sort_entries(s).to_multiset() =~= s.to_multiset());
    }
}

/// Stable sort of directory entries by name.
pub fn sort_entries(entries: &Vec<FileSystemEntry>) -> (r: Vec<FileSystemEntry>)
    ensures
        r.deep_view() == spec_sort_entries(entries.deep_view()),
{
    let n = entries.len();
    let mut out: Vec<FileSystemEntry> = Vec::new();
    let mut i: usize = 0;
    assert(out.deep_view() =~= Seq::<EntryModel>::empty());
    assert(entries.deep_view().take(0) =~= Seq::<EntryModel>::empty());
    while i < n
        invariant
            0 <= i <= n,
            n == entries.len(),
            out.len() == i,
            out.deep_view() == spec_sort_entries(entries.deep_view().take(i as int)),
        decreases n - i,
    {
        let e = entries[i].duplicate();
        proof {
            lemma_insert_position_char(out.deep_view(), e@);
        }
        let ghost p = insert_position(out.deep_view(), e@);
        let mut j: usize = 0;
        while j < out.len() && str_lex_le(out[j].name.as_str(), e.name.as_str())
            invariant
                0 <= j <= out.len(),
                forall|k: int| 0 <= k < j ==> lex_le(out.deep_view()[k].name, e@.name),
                p == insert_position(out.deep_view(), e@),
                0 <= p <= out.len(),
                forall|k: int| 0 <= k < p ==> lex_le(out.deep_view()[k].name, e@.name),
                p < out.len() ==> !lex_le(out.deep_view()[p as int].name, e@.name),
                j <= p,
            decreases out.len() - j,
        {
            j = j + 1;
        }
        assert(j == p) by {
            if j < p {
                assert(lex_le(out.deep_view()[j as int].name, e@.name));
            }
        }
        let ghost old_out = out.deep_view();
        out.insert(j, e);
        proof {
            assert(out.deep_view() =~= old_out.insert(j as int, e@));
            assert(entries.deep_view().take(i as int + 1).drop_last() =~= entries.deep_view().take(
                i as int,
            ));
            assert(entries.deep_view().take(i as int + 1).last() == entries.deep_view()[i as int]);
        }
        i = i + 1;
    }
    assert(entries.deep_view().take(n as int) =~= entries.deep_view());
    out
}

} // verus!
