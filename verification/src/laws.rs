//! Stated and proved properties of the decoder, the resolver and the
//! extraction outcome.

use vstd::prelude::*;

use crate::decode::after_pipe;
use crate::decode::decode_dir_name;
use crate::decode::lemma_find_char_none;
use crate::extract::EntryResult;
use crate::extract::EntryStatus;
use crate::extract::cab_data;
use crate::extract::cab_entry_ok;
use crate::extract::entry_spec;
use crate::traverse::MsiTraverser;
use crate::traverse::dir_chain;
use crate::traverse::name_or_empty;
use crate::traverse::names_of;
use crate::traverse::spec_dir_path;

verus! {

/// A filename field without a `|` decodes to itself.
pub proof fn lemma_decode_plain(s: Seq<char>)
    requires
        forall|j: int| 0 <= j < s.len() ==> s[j] != '|',
    ensures
        after_pipe(s) == s,
{
    lemma_find_char_none(s, '|');
}

/// A default-directory field without a `|` and without a `:` decodes to
/// itself.
pub proof fn lemma_decode_dir_plain(s: Seq<char>)
    requires
        forall|j: int| 0 <= j < s.len() ==> s[j] != '|',
        forall|j: int| 0 <= j < s.len() ==> s[j] != ':',
    ensures
        decode_dir_name(s) == s,
{
    lemma_find_char_none(s, ':');
    lemma_decode_plain(s);
}

/// Root elision: for directories root (no parent) ← `a` ← `b` with names on
/// record for `a` and `b`, the directory path of `b` is
/// `[name(a), name(b)]` — the root's own name never appears.
pub proof fn lemma_root_elision(t: MsiTraverser, root: Seq<char>, a: Seq<char>, b: Seq<char>)
    requires
        t.dir_parents().contains_key(b),
        t.dir_parents()[b] == a,
        t.dir_parents().contains_key(a),
        t.dir_parents()[a] == root,
        !t.dir_parents().contains_key(root),
    ensures
        dir_chain(t.dir_parents(), b, t.parent_links()) == Some(seq![b, a, root]),
        spec_dir_path(t.dir_names(), t.dir_parents(), b, t.parent_links()) == seq![
            name_or_empty(t.dir_names(), a),
            name_or_empty(t.dir_names(), b),
        ],
{
    t.lemma_parent_links();
    let dp = t.dir_parents();
    let dom = dp.dom();
    assert(a != root);
    assert(b != root);
    assert(a != b) by {
        if a == b {
            assert(dp[a] == a);
        }
    }
    assert(dom.len() >= 2) by {
        vstd::set::axiom_set_remove_len(dom, a);
        assert(dom.remove(a).contains(b));
        vstd::set::axiom_set_remove_len(dom.remove(a), b);
    }
    let fuel = t.parent_links();
    assert(dir_chain(dp, root, (fuel - 2) as nat) == Some(seq![root]));
    assert(dir_chain(dp, a, (fuel - 1) as nat) == Some(seq![a] + seq![root]));
    assert(dir_chain(dp, b, fuel) == Some(seq![b] + (seq![a] + seq![root])));
    assert(seq![b] + (seq![a] + seq![root]) =~= seq![b, a, root]);
    let names = names_of(t.dir_names(), seq![b, a, root]);
    assert(names =~= seq![
        name_or_empty(t.dir_names(), b),
        name_or_empty(t.dir_names(), a),
        name_or_empty(t.dir_names(), root),
    ]);
    assert(names.drop_last() =~= seq![
        name_or_empty(t.dir_names(), b),
        name_or_empty(t.dir_names(), a),
    ]);
    assert(names.drop_last().reverse() =~= seq![
        name_or_empty(t.dir_names(), a),
        name_or_empty(t.dir_names(), b),
    ]);
}

/// Full file path: a file owned by a component of directory `b` in the
/// chain root ← `a` ← `b` resolves to `[name(a), name(b), filename]`, the
/// filename decoded from its `SHORT|Long` field.
pub proof fn lemma_full_file_path(
    t: MsiTraverser,
    file: Seq<char>,
    comp: Seq<char>,
    root: Seq<char>,
    a: Seq<char>,
    b: Seq<char>,
)
    requires
        t.file_names().contains_key(file),
        t.file_components().contains_key(file),
        t.file_components()[file] == comp,
        t.component_dirs().contains_key(comp),
        t.component_dirs()[comp] == b,
        t.dir_names().contains_key(a),
        t.dir_names().contains_key(b),
        t.dir_parents().contains_key(b),
        t.dir_parents()[b] == a,
        t.dir_parents().contains_key(a),
        t.dir_parents()[a] == root,
        !t.dir_parents().contains_key(root),
    ensures
        t.resolvable(file),
        t.resolved_path(file) == seq![
            t.dir_names()[a],
            t.dir_names()[b],
            after_pipe(t.file_names()[file]),
        ],
{
    lemma_root_elision(t, root, a, b);
    assert(t.spec_dir_of(file) == b);
    assert(t.resolved_path(file) =~= seq![
        t.dir_names()[a],
        t.dir_names()[b],
        after_pipe(t.file_names()[file]),
    ]);
}

/// The malformed-hierarchy verdict is absolute: a directory whose parent
/// walk fails within the parent-link bound is resolved by no bound at all —
/// its links are cyclic, and a larger budget would only loop longer.
pub proof fn lemma_malformed_is_cyclic(t: MsiTraverser, dir: Seq<char>, fuel: nat)
    requires
        dir_chain(t.dir_parents(), dir, t.parent_links()) is None,
    ensures
        dir_chain(t.dir_parents(), dir, fuel) is None,
{
    t.lemma_parent_links();
    crate::traverse::lemma_bound_is_enough(t.dir_parents(), dir, t.parent_links(), fuel);
}

/// Missing-mapping tolerance: an entry whose file id lacks a component
/// mapping is reported as unresolvable, never extracted; the promise for
/// every other entry speaks only of that entry's own id, so the rest are
/// unaffected.
pub proof fn lemma_missing_mapping_is_skipped(
    t: MsiTraverser,
    c: cab::Cabinet<std::io::Cursor<Vec<u8>>>,
    name: Seq<char>,
    e: EntryResult,
)
    requires
        entry_spec(t, c, name, e),
        !t.file_components().contains_key(name),
    ensures
        e.status is Unresolvable,
{
}

/// Extraction is owed: an entry whose id resolves and whose data reads is
/// extracted, with exactly its resolved path and its decompressed bytes —
/// one bad entry never costs a good one its output.
pub proof fn lemma_good_entry_extracted(
    t: MsiTraverser,
    c: cab::Cabinet<std::io::Cursor<Vec<u8>>>,
    name: Seq<char>,
    e: EntryResult,
)
    requires
        entry_spec(t, c, name, e),
        t.resolvable(name),
        cab_entry_ok(c, name),
    ensures
        e.status is Extracted,
        e.status->Extracted_0.deep_view() == t.resolved_path(name),
        e.status->Extracted_1@ == cab_data(c, name),
{
}

/// Colliding output paths are not merged: two entries that resolve to the
/// same path are both reported, each carrying its own entry's bytes.
pub proof fn lemma_colliding_paths_kept(
    t: MsiTraverser,
    c: cab::Cabinet<std::io::Cursor<Vec<u8>>>,
    names: Seq<Seq<char>>,
    results: Seq<EntryResult>,
    i: int,
    j: int,
)
    requires
        results.len() == names.len(),
        forall|k: int| 0 <= k < results.len() ==> entry_spec(t, c, names[k], results[k]),
        0 <= i < j < names.len(),
        results[i].status is Extracted,
        results[j].status is Extracted,
        t.resolved_path(names[i]) == t.resolved_path(names[j]),
    ensures
        results[i].status->Extracted_0.deep_view() == results[j].status->Extracted_0.deep_view(),
        results[i].status->Extracted_1@ == cab_data(c, names[i]),
        results[j].status->Extracted_1@ == cab_data(c, names[j]),
{
    assert(entry_spec(t, c, names[i], results[i]));
    assert(entry_spec(t, c, names[j], results[j]));
}

} // verus!
