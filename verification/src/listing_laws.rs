//! The file picker's laws: the order of its listing (directories first, then files, each
//! sorted by name) and its moves between directories.

use vstd::prelude::*;

use crate::file_picker::{
    ascended, descended, EntryView, FilePickerState, first_after, insert_by_name, listing, name_lt,
    shown_of_kind, sort_by_name,
};

verus! {

/// No name comes before itself.
pub proof fn lemma_name_lt_irreflexive(a: Seq<char>)
    ensures
        !name_lt(a, a),
    decreases a.len(),
{
    if a.len() > 0 {
        lemma_name_lt_irreflexive(a.drop_first());
    }
}

/// The order of names is transitive.
pub proof fn lemma_name_lt_transitive(a: Seq<char>, b: Seq<char>, c: Seq<char>)
    requires
        name_lt(a, b),
        name_lt(b, c),
    ensures
        name_lt(a, c),
    decreases a.len(),
{
    if a.len() > 0 && b.len() > 0 && c.len() > 0 && a[0] == b[0] && b[0] == c[0] {
        lemma_name_lt_transitive(a.drop_first(), b.drop_first(), c.drop_first());
    }
}

/// Entries sorted by name: no entry's name comes before that of an entry ahead of it.
pub open spec fn sorted_by_name(s: Seq<EntryView>) -> bool {
    forall|i: int, j: int| 0 <= i < j < s.len() ==> !name_lt(#[trigger] s[j].0, #[trigger] s[i].0)
}

/// Every entry is of one kind (directory or file).
pub open spec fn all_of_kind(s: Seq<EntryView>, dirs: bool) -> bool {
    forall|i: int| 0 <= i < s.len() ==> (#[trigger] s[i]).1 == dirs
}

/// Where `first_after` puts an entry: after the entries whose names do not come after it,
/// before the first that does.
proof fn lemma_first_after(s: Seq<EntryView>, name: Seq<char>)
    ensures
        0 <= first_after(s, name) <= s.len(),
        forall|i: int| 0 <= i < first_after(s, name) ==> !name_lt(name, #[trigger] s[i].0),
        first_after(s, name) < s.len() ==> name_lt(name, s[first_after(s, name)].0),
    decreases s.len(),
{
    if s.len() > 0 && !name_lt(name, s[0].0) {
        lemma_first_after(s.drop_first(), name);
        assert forall|i: int| 0 <= i < first_after(s, name) implies !name_lt(name, #[trigger] s[i].0) by {
            if i > 0 {
                assert(s[i] == s.drop_first()[i - 1]);
            }
        }
    }
}

/// Inserting by name keeps a sorted list sorted, its length plus one, and its kind.
proof fn lemma_insert_sorted(s: Seq<EntryView>, e: EntryView)
    requires
        sorted_by_name(s),
    ensures
        sorted_by_name(insert_by_name(s, e)),
        insert_by_name(s, e).len() == s.len() + 1,
        forall|d: bool| all_of_kind(s, d) && e.1 == d ==> all_of_kind(#[trigger] insert_by_name(s, e), d),
{
    lemma_first_after(s, e.0);
    let p = first_after(s, e.0);
    let r = insert_by_name(s, e);
    assert(r.len() == s.len() + 1);
    assert forall|k: int| 0 <= k < r.len() implies #[trigger] r[k] == (if k < p {
        s[k]
    } else if k == p {
        e
    } else {
        s[k - 1]
    }) by {}
    assert forall|i: int, j: int| 0 <= i < j < r.len() implies !name_lt(#[trigger] r[j].0, #[trigger] r[i].0) by {
        if j < p {
        } else if j == p {
        } else if i < p {
        } else if i == p {
            if name_lt(r[j].0, e.0) {
                lemma_name_lt_transitive(r[j].0, e.0, s[p].0);
                if p < j - 1 {
                    assert(!name_lt(s[j - 1].0, s[p].0));
                } else {
                    lemma_name_lt_irreflexive(s[p].0);
                }
            }
        } else {
            assert(!name_lt(s[j - 1].0, s[i - 1].0));
        }
    }
    assert forall|d: bool| all_of_kind(s, d) && e.1 == d implies all_of_kind(#[trigger] insert_by_name(s, e), d) by {
        assert forall|k: int| 0 <= k < r.len() implies (#[trigger] r[k]).1 == d by {
            if k < p {
                assert(r[k] == s[k]);
            } else if k > p {
                assert(r[k] == s[k - 1]);
            }
        }
    }
}

/// Sorting by name gives a sorted list of the same length and kind.
pub proof fn lemma_sort_by_name(s: Seq<EntryView>)
    ensures
        sorted_by_name(sort_by_name(s)),
        sort_by_name(s).len() == s.len(),
        forall|d: bool| all_of_kind(s, d) ==> all_of_kind(#[trigger] sort_by_name(s), d),
    decreases s.len(),
{
    if s.len() > 0 {
        lemma_sort_by_name(s.drop_last());
        lemma_insert_sorted(sort_by_name(s.drop_last()), s.last());
        assert forall|d: bool| all_of_kind(s, d) implies all_of_kind(#[trigger] sort_by_name(s), d) by {
            assert(all_of_kind(s.drop_last(), d)) by {
                assert forall|i: int| 0 <= i < s.drop_last().len() implies (#[trigger] s.drop_last()[i]).1
                    == d by {
                    assert(s.drop_last()[i] == s[i]);
                }
            }
            assert(s.last() == s[s.len() - 1]);
        }
    }
}

/// The entries of one kind are of that kind.
proof fn lemma_shown_of_kind(raws: Seq<(Seq<char>, bool, bool)>, dir: Seq<Seq<char>>, dirs: bool)
    ensures
        all_of_kind(shown_of_kind(raws, dir, dirs), dirs),
    decreases raws.len(),
{
    if raws.len() > 0 {
        lemma_shown_of_kind(raws.drop_last(), dir, dirs);
        let sub = shown_of_kind(raws.drop_last(), dir, dirs);
        assert forall|i: int| 0 <= i < shown_of_kind(raws, dir, dirs).len() implies (
        #[trigger] shown_of_kind(raws, dir, dirs)[i]).1 == dirs by {
            if i < sub.len() {
                assert(shown_of_kind(raws, dir, dirs)[i] == sub[i]);
            }
        }
    }
}

/// The file picker lists a directory's directories first, then its files, each part
/// sorted by name.
pub proof fn law_listing_order(raws: Seq<(Seq<char>, bool, bool)>, dir: Seq<Seq<char>>)
    ensures
        ({
            let l = listing(raws, dir);
            let nd = shown_of_kind(raws, dir, true).len() as int;
            &&& 0 <= nd <= l.len()
            &&& forall|i: int| 0 <= i < nd ==> (#[trigger] l[i]).1
            &&& forall|i: int| nd <= i < l.len() ==> !(#[trigger] l[i]).1
            &&& forall|i: int, j: int|
                0 <= i < j < nd ==> !name_lt(#[trigger] l[j].0, #[trigger] l[i].0)
            &&& forall|i: int, j: int|
                nd <= i < j < l.len() ==> !name_lt(#[trigger] l[j].0, #[trigger] l[i].0)
        }),
{
    let d = shown_of_kind(raws, dir, true);
    let f = shown_of_kind(raws, dir, false);
    lemma_shown_of_kind(raws, dir, true);
    lemma_shown_of_kind(raws, dir, false);
    lemma_sort_by_name(d);
    lemma_sort_by_name(f);
    let sd = sort_by_name(d);
    let sf = sort_by_name(f);
    let l = listing(raws, dir);
    assert(l == sd + sf);
    assert(all_of_kind(sd, true));
    assert(all_of_kind(sf, false));
    assert forall|i: int| 0 <= i < d.len() implies (#[trigger] l[i]).1 by {
        assert(l[i] == sd[i]);
    }
    assert forall|i: int| d.len() <= i < l.len() implies !(#[trigger] l[i]).1 by {
        assert(l[i] == sf[i - d.len()]);
    }
    assert forall|i: int, j: int| 0 <= i < j < d.len() implies !name_lt(#[trigger] l[j].0, #[trigger] l[i].0) by {
        assert(l[i] == sd[i] && l[j] == sd[j]);
    }
    assert forall|i: int, j: int| d.len() <= i < j < l.len() implies !name_lt(#[trigger] l[j].0, #[trigger] l[i].0) by {
        assert(l[i] == sf[i - d.len()] && l[j] == sf[j - d.len()]);
    }
}

/// Going into a subdirectory and back up returns the picker to the directory it was in,
/// at the same `@` position.
pub proof fn law_descend_then_ascend(
    a: FilePickerState,
    b: FilePickerState,
    c: FilePickerState,
    name: Seq<char>,
)
    requires
        descended(a, b, name),
        ascended(b, c),
    ensures
        c.current_dir@ == a.current_dir@,
        c.at_token_start == a.at_token_start,
{
    assert(a.current_dir@.push(b.current_dir@.last()).drop_last() =~= a.current_dir@);
}

} // verus!
