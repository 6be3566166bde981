//! The order of a manifest: file entries sorted by the bytes of their paths.

use vstd::prelude::*;
use vstd::utf8::{encode_utf8, encode_utf8_decode_utf8};
use crate::bytes::{bytes_less, lemma_lex_total, lemma_lex_transitive, lex_less};
use crate::types::{FileEntry, FileEntryView};

verus! {

/// Whether path `a` comes strictly before path `b`: by their UTF-8 bytes.
pub open spec fn path_less(a: Seq<char>, b: Seq<char>) -> bool {
    lex_less(encode_utf8(a), encode_utf8(b))
}

/// No entry comes before an entry that stands earlier in the list.
pub open spec fn sorted_by_path(entries: Seq<FileEntryView>) -> bool {
    forall|i: int, j: int| 0 <= i < j < entries.len() ==> !path_less(entries[j].path, entries[i].path)
}

/// `entries` with `entry` put in before the first entry that does not come before it.
pub open spec fn insert_by_path(entries: Seq<FileEntryView>, entry: FileEntryView) -> Seq<FileEntryView>
    decreases entries.len(),
{
    if entries.len() > 0 && path_less(entries[0].path, entry.path) {
        seq![entries[0]] + insert_by_path(entries.drop_first(), entry)
    } else {
        seq![entry] + entries
    }
}

/// The entries sorted by path; entries with the same path keep their order.
pub open spec fn sort_by_path(entries: Seq<FileEntryView>) -> Seq<FileEntryView>
    decreases entries.len(),
{
    if entries.len() == 0 {
        Seq::empty()
    } else {
        insert_by_path(sort_by_path(entries.drop_first()), entries[0])
    }
}

/// The views of a list of entries.
pub open spec fn entry_views(entries: Seq<FileEntry>) -> Seq<FileEntryView> {
    entries.map_values(|e: FileEntry| e@)
}

/// The order of paths is a strict total order.
pub proof fn lemma_path_order(a: Seq<char>, b: Seq<char>, c: Seq<char>)
    ensures
        !path_less(a, a),
        !(path_less(a, b) && path_less(b, a)),
        a != b ==> path_less(a, b) || path_less(b, a),
        path_less(a, b) && path_less(b, c) ==> path_less(a, c),
        !path_less(b, a) && !path_less(c, b) ==> !path_less(c, a),
{
    lemma_lex_total(encode_utf8(a), encode_utf8(a));
    lemma_lex_total(encode_utf8(a), encode_utf8(b));
    lemma_lex_total(encode_utf8(b), encode_utf8(c));
    lemma_lex_total(encode_utf8(a), encode_utf8(c));
    encode_utf8_decode_utf8(a);
    encode_utf8_decode_utf8(b);
    encode_utf8_decode_utf8(c);
    if path_less(a, b) && path_less(b, c) {
        lemma_lex_transitive(encode_utf8(a), encode_utf8(b), encode_utf8(c));
    }
    if !path_less(b, a) && !path_less(c, b) && path_less(c, a) {
        if encode_utf8(b) == encode_utf8(a) {
        } else if encode_utf8(c) == encode_utf8(b) {
        } else {
            lemma_lex_transitive(encode_utf8(a), encode_utf8(b), encode_utf8(c));
            lemma_lex_total(encode_utf8(c), encode_utf8(a));
        }
    }
}

/// Inserting an entry adds that entry and nothing else, and keeps a sorted
/// list sorted.
pub proof fn lemma_insert_by_path(entries: Seq<FileEntryView>, entry: FileEntryView)
    ensures
        insert_by_path(entries, entry).len() == entries.len() + 1,
        forall|x: FileEntryView|
            #![trigger insert_by_path(entries, entry).contains(x)]
            #![trigger entries.contains(x)]
            insert_by_path(entries, entry).contains(x) <==> entries.contains(x) || x == entry,
        sorted_by_path(entries) ==> sorted_by_path(insert_by_path(entries, entry)),
    decreases entries.len(),
{
    let result = insert_by_path(entries, entry);
    if entries.len() > 0 && path_less(entries[0].path, entry.path) {
        let tail = entries.drop_first();
        let inner = insert_by_path(tail, entry);
        lemma_insert_by_path(tail, entry);
        assert forall|x: FileEntryView| result.contains(x) <==> entries.contains(x) || x == entry by {
            if result.contains(x) {
                let i = choose|i: int| 0 <= i < result.len() && result[i] == x;
                if i == 0 {
                    assert(entries[0] == x);
                } else {
                    assert(inner[i - 1] == x);
                    assert(inner.contains(x));
                    if tail.contains(x) {
                        let k = choose|k: int| 0 <= k < tail.len() && tail[k] == x;
                        assert(entries[k + 1] == x);
                    }
                }
            }
            if entries.contains(x) || x == entry {
                if x == entries[0] {
                    assert(result[0] == x);
                } else {
                    if entries.contains(x) {
                        let k = choose|k: int| 0 <= k < entries.len() && entries[k] == x;
                        assert(tail[k - 1] == x);
                        assert(tail.contains(x));
                    }
                    assert(tail.contains(x) || x == entry);
                    assert(insert_by_path(tail, entry).contains(x));
                    let i = choose|i: int| 0 <= i < inner.len() && inner[i] == x;
                    assert(result[i + 1] == x);
                }
            }
        }
        if sorted_by_path(entries) {
            assert(sorted_by_path(tail)) by {
                assert forall|i: int, j: int| 0 <= i < j < tail.len() implies !path_less(
                    tail[j].path,
                    tail[i].path,
                ) by {
                    assert(tail[i] == entries[i + 1] && tail[j] == entries[j + 1]);
                }
            }
            assert forall|i: int, j: int| 0 <= i < j < result.len() implies !path_less(
                result[j].path,
                result[i].path,
            ) by {
                if i == 0 {
                    let x = inner[j - 1];
                    assert(result[j] == x);
                    assert(inner.contains(x));
                    if x == entry {
                        lemma_path_order(entries[0].path, entry.path, entry.path);
                    } else {
                        assert(tail.contains(x));
                        let k = choose|k: int| 0 <= k < tail.len() && tail[k] == x;
                        assert(entries[k + 1] == x);
                    }
                } else {
                    assert(result[i] == inner[i - 1] && result[j] == inner[j - 1]);
                }
            }
        }
    } else {
        assert forall|x: FileEntryView| result.contains(x) <==> entries.contains(x) || x == entry by {
            if result.contains(x) {
                let i = choose|i: int| 0 <= i < result.len() && result[i] == x;
                if i > 0 {
                    assert(entries[i - 1] == x);
                }
            }
            if entries.contains(x) {
                let k = choose|k: int| 0 <= k < entries.len() && entries[k] == x;
                assert(result[k + 1] == x);
            }
            if x == entry {
                assert(result[0] == x);
            }
        }
        if sorted_by_path(entries) {
            assert forall|i: int, j: int| 0 <= i < j < result.len() implies !path_less(
                result[j].path,
                result[i].path,
            ) by {
                if i == 0 {
                    assert(result[j] == entries[j - 1]);
                    lemma_path_order(entry.path, entries[0].path, entries[j - 1].path);
                    if j > 1 {
                        assert(!path_less(entries[j - 1].path, entries[0].path));
                    }
                } else {
                    assert(result[i] == entries[i - 1] && result[j] == entries[j - 1]);
                }
            }
        }
    }
}

/// Sorting keeps every entry, adds none, and gives a list sorted by path.
pub proof fn law_sort_by_path(entries: Seq<FileEntryView>)
    ensures
        sort_by_path(entries).len() == entries.len(),
        forall|x: FileEntryView| sort_by_path(entries).contains(x) <==> entries.contains(x),
        sorted_by_path(sort_by_path(entries)),
    decreases entries.len(),
{
    if entries.len() > 0 {
        let tail = entries.drop_first();
        law_sort_by_path(tail);
        lemma_insert_by_path(sort_by_path(tail), entries[0]);
        assert forall|x: FileEntryView| sort_by_path(entries).contains(x) <==> entries.contains(x) by {
            if entries.contains(x) {
                let k = choose|k: int| 0 <= k < entries.len() && entries[k] == x;
                if k > 0 {
                    assert(tail[k - 1] == x);
                    assert(tail.contains(x));
                }
            }
            if tail.contains(x) {
                let k = choose|k: int| 0 <= k < tail.len() && tail[k] == x;
                assert(entries[k + 1] == x);
            }
        }
    }
}

/// Whether the path of `a` comes strictly before the path of `b`.
pub fn path_before(a: &str, b: &str) -> (less: bool)
    ensures
        less == path_less(a@, b@),
{
    bytes_less(a.as_bytes(), b.as_bytes())
}

/// Puts an entry into a list before the first entry that does not come before it.
pub fn insert_entry(entries: &mut Vec<FileEntry>, entry: FileEntry)
    ensures
        entry_views(final(entries)@) == insert_by_path(entry_views(old(entries)@), entry@),
{
    let ghost views = entry_views(entries@);
    let mut i: usize = 0;
    proof {
        assert(views.skip(0) =~= views);
        assert(views.take(0) + insert_by_path(views, entry@) =~= insert_by_path(views, entry@));
    }
    while i < entries.len() && path_before(entries[i].path.as_str(), entry.path.as_str())
        invariant
            i <= entries@.len(),
            entries@ == old(entries)@,
            views == entry_views(entries@),
            insert_by_path(views, entry@) == views.take(i as int) + insert_by_path(
                views.skip(i as int),
                entry@,
            ),
        decreases entries@.len() - i,
    {
        proof {
            let rest = views.skip(i as int);
            assert(rest[0] == views[i as int]);
            assert(rest.drop_first() =~= views.skip(i + 1));
            assert(views.take(i as int) + (seq![rest[0]] + insert_by_path(views.skip(i + 1), entry@))
                =~= views.take(i + 1) + insert_by_path(views.skip(i + 1), entry@));
        }
        i += 1;
    }
    proof {
        let rest = views.skip(i as int);
        if i < entries@.len() {
            assert(rest[0] == views[i as int]);
        }
        assert(insert_by_path(rest, entry@) == seq![entry@] + rest);
        assert(entry_views(entries@.insert(i as int, entry)) =~= views.take(i as int) + (seq![entry@]
            + rest));
    }
    entries.insert(i, entry);
}

/// Sorts entries by path; entries with the same path keep their order.
pub fn sort_entries(entries: Vec<FileEntry>) -> (sorted: Vec<FileEntry>)
    ensures
        entry_views(sorted@) == sort_by_path(entry_views(entries@)),
        sorted_by_path(entry_views(sorted@)),
        sorted@.len() == entries@.len(),
{
    let ghost all = entry_views(entries@);
    let mut rest = entries;
    let mut sorted: Vec<FileEntry> = Vec::new();
    assert(all.skip(all.len() as int) =~= Seq::<FileEntryView>::empty());
    assert(entry_views(sorted@) =~= Seq::<FileEntryView>::empty());
    while rest.len() > 0
        invariant
            rest@.len() <= all.len(),
            entry_views(rest@) == all.take(rest@.len() as int),
            entry_views(sorted@) == sort_by_path(all.skip(rest@.len() as int)),
        decreases rest@.len(),
    {
        let ghost before = rest@;
        let entry = rest.pop().unwrap();
        proof {
            let n = before.len();
            assert(entry@ == all[n - 1]) by {
                assert(entry_views(before)[n - 1] == before[n - 1]@);
            }
            assert(entry_views(rest@) =~= all.take(n - 1));
            assert(all.skip(n - 1)[0] == all[n - 1]);
            assert(all.skip(n - 1).drop_first() =~= all.skip(n as int));
        }
        insert_entry(&mut sorted, entry);
    }
    proof {
        assert(all.skip(0) =~= all);
        law_sort_by_path(all);
    }
    sorted
}

} // verus!
