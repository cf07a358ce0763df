//! The table index and the path resolver.
//!
//! Three relational tables describe the install layout: files (id, encoded
//! filename, owning component), components (id, owning directory) and
//! directories (id, optional parent id, encoded default name).  The index is
//! built once from the rows; resolving a file id walks file → component →
//! directory, then follows parent links up to a root, decoding names on the
//! way.  A parent chain longer than the number of parent links on record must
//! repeat a link, so the walk is bounded by that number and a longer chain is
//! reported as a malformed hierarchy instead of looping forever.

use vstd::prelude::*;

use crate::decode::after_pipe;
use crate::decode::decode_default_dir;
use crate::decode::decode_dir_name;
use crate::decode::decode_filename;
use crate::error::Error;
use crate::strmap::StrMap;

verus! {

/// One row of the file table; a field read as a non-string is absent.
pub struct FileRow {
    pub file: Option<String>,
    pub filename: Option<String>,
    pub component: Option<String>,
}

/// One row of the component table.
pub struct ComponentRow {
    pub component: Option<String>,
    pub directory: Option<String>,
}

/// One row of the directory table.
pub struct DirectoryRow {
    pub directory: Option<String>,
    pub parent: Option<String>,
    pub default_dir: Option<String>,
}

/// The characters of an optional string field.
pub open spec fn opt_view(o: Option<String>) -> Option<Seq<char>> {
    match o {
        Some(s) => Some(s@),
        None => None,
    }
}

/// A file row as its plain fields: file id, encoded filename, component id.
pub open spec fn file_row_view(r: FileRow) -> (
    Option<Seq<char>>,
    Option<Seq<char>>,
    Option<Seq<char>>,
) {
    (opt_view(r.file), opt_view(r.filename), opt_view(r.component))
}

/// A component row as its plain fields: component id, directory id.
pub open spec fn component_row_view(r: ComponentRow) -> (Option<Seq<char>>, Option<Seq<char>>) {
    (opt_view(r.component), opt_view(r.directory))
}

/// A directory row as its plain fields: directory id, parent id, encoded
/// default name.
pub open spec fn directory_row_view(r: DirectoryRow) -> (
    Option<Seq<char>>,
    Option<Seq<char>>,
    Option<Seq<char>>,
) {
    (opt_view(r.directory), opt_view(r.parent), opt_view(r.default_dir))
}

/// The file rows as their plain fields.
pub open spec fn file_rows_view(rows: Seq<FileRow>) -> Seq<
    (Option<Seq<char>>, Option<Seq<char>>, Option<Seq<char>>),
> {
    rows.map_values(|r: FileRow| file_row_view(r))
}

/// The component rows as their plain fields.
pub open spec fn component_rows_view(rows: Seq<ComponentRow>) -> Seq<
    (Option<Seq<char>>, Option<Seq<char>>),
> {
    rows.map_values(|r: ComponentRow| component_row_view(r))
}

/// The directory rows as their plain fields.
pub open spec fn directory_rows_view(rows: Seq<DirectoryRow>) -> Seq<
    (Option<Seq<char>>, Option<Seq<char>>, Option<Seq<char>>),
> {
    rows.map_values(|r: DirectoryRow| directory_row_view(r))
}

/// file id → encoded filename, from the rows (id, filename, component)
/// where both needed fields are present.
pub open spec fn file_name_map(
    rows: Seq<(Option<Seq<char>>, Option<Seq<char>>, Option<Seq<char>>)>,
) -> Map<Seq<char>, Seq<char>>
    decreases rows.len(),
{
    if rows.len() == 0 {
        Map::empty()
    } else {
        let m = file_name_map(rows.drop_last());
        let r = rows.last();
        if r.0 is Some && r.1 is Some {
            m.insert(r.0->Some_0, r.1->Some_0)
        } else {
            m
        }
    }
}

/// file id → owning component id.
pub open spec fn file_component_map(
    rows: Seq<(Option<Seq<char>>, Option<Seq<char>>, Option<Seq<char>>)>,
) -> Map<Seq<char>, Seq<char>>
    decreases rows.len(),
{
    if rows.len() == 0 {
        Map::empty()
    } else {
        let m = file_component_map(rows.drop_last());
        let r = rows.last();
        if r.0 is Some && r.2 is Some {
            m.insert(r.0->Some_0, r.2->Some_0)
        } else {
            m
        }
    }
}

/// component id → owning directory id, from the rows (id, directory).
pub open spec fn component_dir_map(rows: Seq<(Option<Seq<char>>, Option<Seq<char>>)>) -> Map<
    Seq<char>,
    Seq<char>,
>
    decreases rows.len(),
{
    if rows.len() == 0 {
        Map::empty()
    } else {
        let m = component_dir_map(rows.drop_last());
        let r = rows.last();
        if r.0 is Some && r.1 is Some {
            m.insert(r.0->Some_0, r.1->Some_0)
        } else {
            m
        }
    }
}

/// directory id → parent directory id, from the rows (id, parent, default
/// name); the root has no entry.
pub open spec fn dir_parent_map(
    rows: Seq<(Option<Seq<char>>, Option<Seq<char>>, Option<Seq<char>>)>,
) -> Map<Seq<char>, Seq<char>>
    decreases rows.len(),
{
    if rows.len() == 0 {
        Map::empty()
    } else {
        let m = dir_parent_map(rows.drop_last());
        let r = rows.last();
        if r.0 is Some && r.1 is Some {
            m.insert(r.0->Some_0, r.1->Some_0)
        } else {
            m
        }
    }
}

/// How many rows contribute a parent link.
pub open spec fn dir_parent_count(
    rows: Seq<(Option<Seq<char>>, Option<Seq<char>>, Option<Seq<char>>)>,
) -> nat
    decreases rows.len(),
{
    if rows.len() == 0 {
        0
    } else {
        dir_parent_count(rows.drop_last()) + if rows.last().0 is Some && rows.last().1 is Some {
            1nat
        } else {
            0nat
        }
    }
}

/// directory id → decoded default name.
pub open spec fn dir_name_map(
    rows: Seq<(Option<Seq<char>>, Option<Seq<char>>, Option<Seq<char>>)>,
) -> Map<Seq<char>, Seq<char>>
    decreases rows.len(),
{
    if rows.len() == 0 {
        Map::empty()
    } else {
        let m = dir_name_map(rows.drop_last());
        let r = rows.last();
        if r.0 is Some && r.2 is Some {
            m.insert(r.0->Some_0, decode_dir_name(r.2->Some_0))
        } else {
            m
        }
    }
}

/// The ids from `cur` up to its root, `cur` first, root last; `None` when the
/// walk takes more than `fuel` parent steps.
pub open spec fn dir_chain(d_p: Map<Seq<char>, Seq<char>>, cur: Seq<char>, fuel: nat) -> Option<
    Seq<Seq<char>>,
>
    decreases fuel,
{
    if !d_p.contains_key(cur) {
        Some(seq![cur])
    } else if fuel == 0 {
        None
    } else {
        match dir_chain(d_p, d_p[cur], (fuel - 1) as nat) {
            Some(c) => Some(seq![cur] + c),
            None => None,
        }
    }
}

/// A successful walk's shape: it starts at `cur`, each link is the parent on
/// record, and it ends at a directory without one.
#[verifier::spinoff_prover]
pub proof fn lemma_chain_shape(d_p: Map<Seq<char>, Seq<char>>, cur: Seq<char>, fuel: nat)
    requires
        dir_chain(d_p, cur, fuel) is Some,
    ensures
        ({
            let c = dir_chain(d_p, cur, fuel)->Some_0;
            &&& c.len() >= 1
            &&& c[0] == cur
            &&& forall|i: int|
                0 <= i < c.len() - 1 ==> (#[trigger] d_p.contains_key(c[i])) && d_p[c[i]] == c[i
                    + 1]
            &&& !d_p.contains_key(c.last())
        }),
    decreases fuel,
{
    if !d_p.contains_key(cur) {
    } else {
        lemma_chain_shape(d_p, d_p[cur], (fuel - 1) as nat);
        let sub = dir_chain(d_p, d_p[cur], (fuel - 1) as nat)->Some_0;
        let c = dir_chain(d_p, cur, fuel)->Some_0;
        assert(c =~= seq![cur] + sub);
        assert forall|i: int| 0 <= i < c.len() - 1 implies (#[trigger] d_p.contains_key(c[i]))
            && d_p[c[i]] == c[i + 1] by {
            if i == 0 {
                assert(sub[0] == d_p[cur]);
                assert(c[1] == sub[0]);
            } else {
                assert(0 <= i - 1 < sub.len() - 1);
                assert(d_p.contains_key(sub[i - 1]) && d_p[sub[i - 1]] == sub[i]);
                assert(c[i] == sub[i - 1]);
                assert(c[i + 1] == sub[i]);
            }
        }
    }
}

/// Conversely, a sequence of that shape is what the walk returns, with its
/// link count as fuel.
pub proof fn lemma_shape_chain(d_p: Map<Seq<char>, Seq<char>>, c: Seq<Seq<char>>)
    requires
        c.len() >= 1,
        forall|i: int|
            0 <= i < c.len() - 1 ==> (#[trigger] d_p.contains_key(c[i])) && d_p[c[i]] == c[i + 1],
        !d_p.contains_key(c.last()),
    ensures
        dir_chain(d_p, c[0], (c.len() - 1) as nat) == Some(c),
    decreases c.len(),
{
    if c.len() == 1 {
        assert(c =~= seq![c[0]]);
    } else {
        let tail = c.drop_first();
        assert(tail.last() == c.last());
        assert forall|i: int|
            0 <= i < tail.len() - 1 implies (#[trigger] d_p.contains_key(tail[i])) && d_p[tail[i]]
            == tail[i + 1] by {
            assert(tail[i] == c[i + 1]);
            assert(tail[i + 1] == c[i + 2]);
            assert(d_p.contains_key(c[i + 1]) && d_p[c[i + 1]] == c[i + 2]);
        }
        lemma_shape_chain(d_p, tail);
        assert(d_p[c[0]] == c[1]);
        assert(c[1] == tail[0]);
        assert(seq![c[0]] + tail =~= c);
    }
}

/// The walk is deterministic: two successful fuels give the same chain.
pub proof fn lemma_chain_unique(d_p: Map<Seq<char>, Seq<char>>, cur: Seq<char>, f1: nat, f2: nat)
    requires
        dir_chain(d_p, cur, f1) is Some,
        dir_chain(d_p, cur, f2) is Some,
    ensures
        dir_chain(d_p, cur, f1) == dir_chain(d_p, cur, f2),
    decreases f1,
{
    if d_p.contains_key(cur) {
        lemma_chain_unique(d_p, d_p[cur], (f1 - 1) as nat, (f2 - 1) as nat);
    }
}

/// More fuel never hurts: a successful walk is unchanged under a larger
/// bound.
pub proof fn lemma_chain_fuel_monotone(
    d_p: Map<Seq<char>, Seq<char>>,
    cur: Seq<char>,
    f1: nat,
    f2: nat,
)
    requires
        dir_chain(d_p, cur, f1) is Some,
        f1 <= f2,
    ensures
        dir_chain(d_p, cur, f2) == dir_chain(d_p, cur, f1),
    decreases f1,
{
    if d_p.contains_key(cur) {
        lemma_chain_fuel_monotone(d_p, d_p[cur], (f1 - 1) as nat, (f2 - 1) as nat);
    }
}

/// A successful walk never revisits a directory.
#[verifier::spinoff_prover]
pub proof fn lemma_chain_no_duplicates(d_p: Map<Seq<char>, Seq<char>>, cur: Seq<char>, fuel: nat)
    requires
        dir_chain(d_p, cur, fuel) is Some,
    ensures
        dir_chain(d_p, cur, fuel)->Some_0.no_duplicates(),
{
    let c = dir_chain(d_p, cur, fuel)->Some_0;
    lemma_chain_shape(d_p, cur, fuel);
    assert forall|i: int, j: int| 0 <= i < j < c.len() implies c[i] != c[j] by {
        if c[i] == c[j] {
            let ti = c.subrange(i, c.len() as int);
            let tj = c.subrange(j, c.len() as int);
            assert(ti.last() == c.last());
            assert(tj.last() == c.last());
            assert forall|k: int|
                0 <= k < ti.len() - 1 implies (#[trigger] d_p.contains_key(ti[k])) && d_p[ti[k]]
                == ti[k + 1] by {
                assert(0 <= i + k < c.len() - 1);
                assert(d_p.contains_key(c[i + k]) && d_p[c[i + k]] == c[i + k + 1]);
                assert(ti[k] == c[i + k]);
                assert(ti[k + 1] == c[i + k + 1]);
            }
            assert forall|k: int|
                0 <= k < tj.len() - 1 implies (#[trigger] d_p.contains_key(tj[k])) && d_p[tj[k]]
                == tj[k + 1] by {
                assert(0 <= j + k < c.len() - 1);
                assert(d_p.contains_key(c[j + k]) && d_p[c[j + k]] == c[j + k + 1]);
                assert(tj[k] == c[j + k]);
                assert(tj[k + 1] == c[j + k + 1]);
            }
            lemma_shape_chain(d_p, ti);
            lemma_shape_chain(d_p, tj);
            assert(ti[0] == tj[0]);
            lemma_chain_unique(d_p, ti[0], (ti.len() - 1) as nat, (tj.len() - 1) as nat);
            assert(ti == tj);
            assert(ti.len() != tj.len());
        }
    }
}

/// A walk that fails within a bound at least the number of parent links
/// fails at every bound: the links from `cur` are cyclic.
pub proof fn lemma_bound_is_enough(
    d_p: Map<Seq<char>, Seq<char>>,
    cur: Seq<char>,
    bound: nat,
    g: nat,
)
    requires
        d_p.dom().finite(),
        d_p.dom().len() <= bound,
        dir_chain(d_p, cur, bound) is None,
    ensures
        dir_chain(d_p, cur, g) is None,
{
    broadcast use vstd::set::group_set_axioms;

    if dir_chain(d_p, cur, g) is Some {
        let c = dir_chain(d_p, cur, g)->Some_0;
        lemma_chain_shape(d_p, cur, g);
        lemma_chain_no_duplicates(d_p, cur, g);
        let body = c.drop_last();
        assert(body.no_duplicates());
        body.unique_seq_to_set();
        assert forall|x: Seq<char>| body.to_set().contains(x) implies d_p.dom().contains(x) by {
            assert(body.contains(x));
            let k = choose|k: int| 0 <= k < body.len() && body[k] == x;
            assert(c[k] == x);
            assert(d_p.contains_key(c[k]));
        }
        assert(body.to_set().subset_of(d_p.dom()));
        vstd::set_lib::lemma_len_subset(body.to_set(), d_p.dom());
        assert(c.len() >= 1 && c[0] == cur);
        assert(!d_p.contains_key(c.last()));
        assert(forall|i: int|
            0 <= i < c.len() - 1 ==> (#[trigger] d_p.contains_key(c[i])) && d_p[c[i]] == c[i + 1]);
        lemma_shape_chain(d_p, c);
        lemma_chain_fuel_monotone(d_p, cur, (c.len() - 1) as nat, bound);
    }
}

/// The decoded name on record for a directory id, or the empty segment.
pub open spec fn name_or_empty(d_name: Map<Seq<char>, Seq<char>>, id: Seq<char>) -> Seq<char> {
    if d_name.contains_key(id) {
        d_name[id]
    } else {
        Seq::empty()
    }
}

/// The decoded name on record for each id in turn.
pub open spec fn names_of(d_name: Map<Seq<char>, Seq<char>>, ids: Seq<Seq<char>>) -> Seq<
    Seq<char>,
> {
    ids.map_values(|id: Seq<char>| name_or_empty(d_name, id))
}

/// The ids among `ids`, in order, that have no decoded name on record: each
/// contributes an empty segment to a path, and each is a diagnostic the
/// resolver reports rather than a failure.
pub open spec fn missing_of(d_name: Map<Seq<char>, Seq<char>>, ids: Seq<Seq<char>>) -> Seq<
    Seq<char>,
>
    decreases ids.len(),
{
    if ids.len() == 0 {
        Seq::empty()
    } else {
        let rest = missing_of(d_name, ids.drop_first());
        if !d_name.contains_key(ids[0]) {
            seq![ids[0]] + rest
        } else {
            rest
        }
    }
}

/// The resolved directory path: the chain's names, the root's dropped,
/// reversed to read root-to-leaf.
pub open spec fn spec_dir_path(
    d_name: Map<Seq<char>, Seq<char>>,
    d_p: Map<Seq<char>, Seq<char>>,
    dir: Seq<char>,
    fuel: nat,
) -> Seq<Seq<char>>
    recommends
        dir_chain(d_p, dir, fuel) is Some,
{
    names_of(d_name, dir_chain(d_p, dir, fuel)->Some_0).drop_last().reverse()
}

/// The index built from the three tables.
pub struct MsiTraverser {
    f_c: StrMap,
    c_d: StrMap,
    d_p: StrMap,
    f_name: StrMap,
    d_name: StrMap,
}

impl MsiTraverser {
    /// file id → encoded filename.
    pub closed spec fn file_names(&self) -> Map<Seq<char>, Seq<char>> {
        self.f_name@
    }

    /// file id → owning component id.
    pub closed spec fn file_components(&self) -> Map<Seq<char>, Seq<char>> {
        self.f_c@
    }

    /// component id → owning directory id.
    pub closed spec fn component_dirs(&self) -> Map<Seq<char>, Seq<char>> {
        self.c_d@
    }

    /// directory id → parent directory id.
    pub closed spec fn dir_parents(&self) -> Map<Seq<char>, Seq<char>> {
        self.d_p@
    }

    /// directory id → decoded default name.
    pub closed spec fn dir_names(&self) -> Map<Seq<char>, Seq<char>> {
        self.d_name@
    }

    /// The bound on parent-chain walks: the number of parent links on record.
    pub closed spec fn parent_links(&self) -> nat {
        self.d_p.size()
    }

    /// The bound is no smaller than the number of distinct linked directories.
    pub proof fn lemma_parent_links(&self)
        ensures
            self.dir_parents().dom().finite(),
            self.dir_parents().dom().len() <= self.parent_links(),
    {
        self.d_p.lemma_size();
    }

    /// The directory id a file's owning component maps to.
    pub open spec fn spec_dir_of(&self, file: Seq<char>) -> Seq<char> {
        self.component_dirs()[self.file_components()[file]]
    }

    /// The file id has a filename and a component → directory mapping.
    pub open spec fn chain_fields(&self, file: Seq<char>) -> bool {
        &&& self.file_names().contains_key(file)
        &&& self.file_components().contains_key(file)
        &&& self.component_dirs().contains_key(self.file_components()[file])
    }

    /// The file id resolves all the way to a root-to-leaf path.
    pub open spec fn resolvable(&self, file: Seq<char>) -> bool {
        &&& self.chain_fields(file)
        &&& self.dir_names().contains_key(self.spec_dir_of(file))
        &&& dir_chain(self.dir_parents(), self.spec_dir_of(file), self.parent_links()) is Some
    }

    /// The full resolved path: directory segments, then the decoded filename.
    pub open spec fn resolved_path(&self, file: Seq<char>) -> Seq<Seq<char>>
        recommends
            self.resolvable(file),
    {
        spec_dir_path(
            self.dir_names(),
            self.dir_parents(),
            self.spec_dir_of(file),
            self.parent_links(),
        ).push(after_pipe(self.file_names()[file]))
    }

    /// The absorbed diagnostics on a file's resolved path: the directory ids
    /// on the walk from its owning directory whose default name is missing.
    pub open spec fn resolved_missing(&self, file: Seq<char>) -> Seq<Seq<char>>
        recommends
            self.resolvable(file),
    {
        missing_of(
            self.dir_names(),
            dir_chain(
                self.dir_parents(),
                self.spec_dir_of(file),
                self.parent_links(),
            )->Some_0.drop_first(),
        )
    }

    /// Builds the index from the rows of the three tables.  Rows missing the
    /// key or the needed value are skipped; later rows win on equal keys.
    pub fn from_rows(
        file_rows: &Vec<FileRow>,
        component_rows: &Vec<ComponentRow>,
        directory_rows: &Vec<DirectoryRow>,
    ) -> (t: MsiTraverser)
        ensures
            t.file_names() == file_name_map(file_rows_view(file_rows@)),
            t.file_components() == file_component_map(file_rows_view(file_rows@)),
            t.component_dirs() == component_dir_map(component_rows_view(component_rows@)),
            t.dir_parents() == dir_parent_map(directory_rows_view(directory_rows@)),
            t.dir_names() == dir_name_map(directory_rows_view(directory_rows@)),
            t.parent_links() == dir_parent_count(directory_rows_view(directory_rows@)),
    {
        let mut f_name = StrMap::new();
        let mut f_c = StrMap::new();
        let mut i: usize = 0;
        while i < file_rows.len()
            invariant
                i <= file_rows@.len(),
                f_name@ == file_name_map(file_rows_view(file_rows@.subrange(0, i as int))),
                f_c@ == file_component_map(file_rows_view(file_rows@.subrange(0, i as int))),
            decreases file_rows@.len() - i,
        {
            let r = &file_rows[i];
            match (&r.file, &r.filename) {
                (Some(f), Some(n)) => f_name.insert(f.clone(), n.clone()),
                _ => (),
            }
            match (&r.file, &r.component) {
                (Some(f), Some(c)) => f_c.insert(f.clone(), c.clone()),
                _ => (),
            }
            proof {
                assert(file_rows_view(file_rows@.subrange(0, i + 1)).drop_last()
                    =~= file_rows_view(file_rows@.subrange(0, i as int)));
                assert(file_rows_view(file_rows@.subrange(0, i + 1)).last() == file_row_view(
                    file_rows@[i as int],
                ));
            }
            i = i + 1;
        }
        proof {
            assert(file_rows@.subrange(0, file_rows@.len() as int) =~= file_rows@);
        }
        let mut c_d = StrMap::new();
        let mut i: usize = 0;
        while i < component_rows.len()
            invariant
                i <= component_rows@.len(),
                c_d@ == component_dir_map(
                    component_rows_view(component_rows@.subrange(0, i as int)),
                ),
            decreases component_rows@.len() - i,
        {
            let r = &component_rows[i];
            match (&r.component, &r.directory) {
                (Some(c), Some(d)) => c_d.insert(c.clone(), d.clone()),
                _ => (),
            }
            proof {
                assert(component_rows_view(component_rows@.subrange(0, i + 1)).drop_last()
                    =~= component_rows_view(component_rows@.subrange(0, i as int)));
                assert(component_rows_view(component_rows@.subrange(0, i + 1)).last()
                    == component_row_view(component_rows@[i as int]));
            }
            i = i + 1;
        }
        proof {
            assert(component_rows@.subrange(0, component_rows@.len() as int) =~= component_rows@);
        }
        let mut d_p = StrMap::new();
        let mut d_name = StrMap::new();
        let mut i: usize = 0;
        while i < directory_rows.len()
            invariant
                i <= directory_rows@.len(),
                d_p@ == dir_parent_map(directory_rows_view(directory_rows@.subrange(0, i as int))),
                d_p.size() == dir_parent_count(
                    directory_rows_view(directory_rows@.subrange(0, i as int)),
                ),
                d_name@ == dir_name_map(
                    directory_rows_view(directory_rows@.subrange(0, i as int)),
                ),
            decreases directory_rows@.len() - i,
        {
            let r = &directory_rows[i];
            match (&r.directory, &r.parent) {
                (Some(d), Some(p)) => d_p.insert(d.clone(), p.clone()),
                _ => (),
            }
            match (&r.directory, &r.default_dir) {
                (Some(d), Some(n)) => {
                    let decoded = decode_default_dir(n.as_str());
                    d_name.insert(d.clone(), decoded);
                },
                _ => (),
            }
            proof {
                assert(directory_rows_view(directory_rows@.subrange(0, i + 1)).drop_last()
                    =~= directory_rows_view(directory_rows@.subrange(0, i as int)));
                assert(directory_rows_view(directory_rows@.subrange(0, i + 1)).last()
                    == directory_row_view(directory_rows@[i as int]));
            }
            i = i + 1;
        }
        proof {
            assert(directory_rows@.subrange(0, directory_rows@.len() as int) =~= directory_rows@);
        }
        MsiTraverser { f_c, c_d, d_p, f_name, d_name }
    }

    /// The strict ancestors of `cur`, leaf side first, following at most
    /// `fuel` parent links: their decoded names, and the ids among them with
    /// no name on record (the absorbed misses, for diagnostics).
    fn walk_parents(&self, cur: &str, fuel: usize) -> (r: Result<(Vec<String>, Vec<String>), Error>)
        ensures
            match r {
                Ok(out) => dir_chain(self.dir_parents(), cur@, fuel as nat) is Some
                    && out.0.deep_view() == names_of(
                    self.dir_names(),
                    dir_chain(self.dir_parents(), cur@, fuel as nat)->Some_0.drop_first(),
                ) && out.1.deep_view() == missing_of(
                    self.dir_names(),
                    dir_chain(self.dir_parents(), cur@, fuel as nat)->Some_0.drop_first(),
                ),
                Err(e) => e is MalformedHierarchy && dir_chain(
                    self.dir_parents(),
                    cur@,
                    fuel as nat,
                ) is None,
            },
        decreases fuel,
    {
        match self.d_p.get(cur) {
            None => {
                let names: Vec<String> = Vec::new();
                let missing: Vec<String> = Vec::new();
                proof {
                    assert(seq![cur@].drop_first() =~= Seq::<Seq<char>>::empty());
                    assert(names.deep_view() =~= names_of(
                        self.dir_names(),
                        seq![cur@].drop_first(),
                    ));
                    assert(missing.deep_view() =~= missing_of(
                        self.dir_names(),
                        seq![cur@].drop_first(),
                    ));
                }
                Ok((names, missing))
            },
            Some(parent) => {
                if fuel == 0 {
                    Err(Error::MalformedHierarchy)
                } else {
                    let ghost parentv = parent@;
                    let (pname, pname_missing) = match self.d_name.get(parent.as_str()) {
                        Some(n) => (n, false),
                        None => (String::new(), true),
                    };
                    let ghost pv = pname@;
                    proof {
                        assert(pv == name_or_empty(self.dir_names(), parent@));
                        assert(pname_missing == !self.dir_names().contains_key(parent@));
                    }
                    match self.walk_parents(parent.as_str(), fuel - 1) {
                        Err(e) => Err(e),
                        Ok((rest, rest_missing)) => {
                            let ghost sub = dir_chain(
                                self.dir_parents(),
                                parent@,
                                (fuel - 1) as nat,
                            )->Some_0;
                            let ghost restd = rest.deep_view();
                            let ghost rest_missing_d = rest_missing.deep_view();
                            let names = prepend(pname, rest);
                            let missing = if pname_missing {
                                prepend(parent, rest_missing)
                            } else {
                                rest_missing
                            };
                            proof {
                                let chain = seq![cur@] + sub;
                                assert(dir_chain(self.dir_parents(), cur@, fuel as nat) == Some(
                                    chain,
                                ));
                                assert(sub[0] == parent@);
                                assert(chain.drop_first() =~= sub);
                                assert(names.deep_view() =~= names_of(self.dir_names(), sub)) by {
                                    assert(restd == names_of(self.dir_names(), sub.drop_first()));
                                    assert forall|i: int|
                                        0 <= i < names_of(self.dir_names(), sub).len() implies (
                                    seq![pv] + restd)[i] == names_of(self.dir_names(), sub)[i] by {
                                        if i > 0 {
                                            assert(sub.drop_first()[i - 1] == sub[i]);
                                        }
                                    }
                                }
                                assert(rest_missing_d == missing_of(
                                    self.dir_names(),
                                    sub.drop_first(),
                                ));
                                if pname_missing {
                                    assert(missing.deep_view() =~= missing_of(
                                        self.dir_names(),
                                        sub,
                                    )) by {
                                        assert(missing.deep_view() == seq![parentv]
                                            + rest_missing_d);
                                    }
                                } else {
                                    assert(missing.deep_view() =~= missing_of(
                                        self.dir_names(),
                                        sub,
                                    ));
                                }
                            }
                            Ok((names, missing))
                        },
                    }
                }
            },
        }
    }

    /// The directory ids on the walk from `dir` whose default name is
    /// missing, in walk order: the diagnostics that [`MsiTraverser::dir_path`]
    /// absorbs by substituting empty segments.  Succeeds and fails exactly as
    /// `dir_path` does.
    pub fn missing_ancestors(&self, dir: &str) -> (r: Result<Vec<String>, Error>)
        ensures
            match r {
                Ok(missing) => self.dir_names().contains_key(dir@) && dir_chain(
                    self.dir_parents(),
                    dir@,
                    self.parent_links(),
                ) is Some && missing.deep_view() == missing_of(
                    self.dir_names(),
                    dir_chain(self.dir_parents(), dir@, self.parent_links())->Some_0.drop_first(),
                ),
                Err(e) => match e {
                    Error::Other => !self.dir_names().contains_key(dir@),
                    Error::MalformedHierarchy => self.dir_names().contains_key(dir@) && dir_chain(
                        self.dir_parents(),
                        dir@,
                        self.parent_links(),
                    ) is None,
                    Error::Contract(_) => false,
                },
            },
    {
        if self.d_name.get(dir).is_none() {
            return Err(Error::Other);
        }
        match self.walk_parents(dir, self.d_p.len()) {
            Err(e) => Err(e),
            Ok((_, missing)) => Ok(missing),
        }
    }

    /// The root-to-leaf directory path for a directory id: its decoded name
    /// and its ancestors' names, the root's own name elided.  Fails with
    /// [`Error::Other`] when the id has no default-name entry, and with
    /// [`Error::MalformedHierarchy`] when the parent links cycle.  An
    /// ancestor without a name is absorbed as an empty segment, never a
    /// failure; [`MsiTraverser::missing_ancestors`] reports those misses.
    pub fn dir_path(&self, dir: &str) -> (r: Result<Vec<String>, Error>)
        ensures
            match r {
                Ok(path) => self.dir_names().contains_key(dir@) && dir_chain(
                    self.dir_parents(),
                    dir@,
                    self.parent_links(),
                ) is Some && path.deep_view() == spec_dir_path(
                    self.dir_names(),
                    self.dir_parents(),
                    dir@,
                    self.parent_links(),
                ),
                Err(e) => match e {
                    Error::Other => !self.dir_names().contains_key(dir@),
                    Error::MalformedHierarchy => self.dir_names().contains_key(dir@) && dir_chain(
                        self.dir_parents(),
                        dir@,
                        self.parent_links(),
                    ) is None,
                    Error::Contract(_) => false,
                },
            },
    {
        let first = match self.d_name.get(dir) {
            None => {
                return Err(Error::Other);
            },
            Some(n) => n,
        };
        let ghost fv = first@;
        let fuel = self.d_p.len();
        match self.walk_parents(dir, fuel) {
            Err(e) => Err(e),
            Ok((up, _)) => {
                let ghost chain = dir_chain(self.dir_parents(), dir@, self.parent_links())->Some_0;
                let ghost upd = up.deep_view();
                let mut all = prepend(first, up);
                proof {
                    assert(chain[0] == dir@);
                    assert(all.deep_view() =~= names_of(self.dir_names(), chain)) by {
                        assert(fv == name_or_empty(self.dir_names(), chain[0]));
                        assert(upd == names_of(self.dir_names(), chain.drop_first()));
                        assert forall|i: int|
                            0 <= i < names_of(self.dir_names(), chain).len() implies (seq![fv]
                            + upd)[i] == names_of(self.dir_names(), chain)[i] by {
                            if i > 0 {
                                assert(chain.drop_first()[i - 1] == chain[i]);
                            }
                        }
                    }
                }
                let ghost before = all.deep_view();
                let _ = all.pop();
                proof {
                    assert(all.deep_view() =~= before.drop_last());
                }
                let out = reverse_strings(all);
                proof {
                    assert(out.deep_view() =~= names_of(self.dir_names(), chain).drop_last()
                        .reverse());
                }
                Ok(out)
            },
        }
    }

    /// The full relative install path for a file id: the owning directory's
    /// root-to-leaf segments, then the decoded filename.
    pub fn resolve(&self, file: &str) -> (r: Result<Vec<String>, Error>)
        ensures
            match r {
                Ok(path) => self.resolvable(file@) && path.deep_view() == self.resolved_path(
                    file@,
                ),
                Err(e) => match e {
                    Error::Other => !self.chain_fields(file@) || !self.dir_names().contains_key(
                        self.spec_dir_of(file@),
                    ),
                    Error::MalformedHierarchy => self.chain_fields(file@)
                        && self.dir_names().contains_key(self.spec_dir_of(file@)) && dir_chain(
                        self.dir_parents(),
                        self.spec_dir_of(file@),
                        self.parent_links(),
                    ) is None,
                    Error::Contract(_) => false,
                },
            },
    {
        let encoded = match self.f_name.get(file) {
            None => {
                return Err(Error::Other);
            },
            Some(s) => s,
        };
        let comp = match self.f_c.get(file) {
            None => {
                return Err(Error::Other);
            },
            Some(c) => c,
        };
        let dir = match self.c_d.get(comp.as_str()) {
            None => {
                return Err(Error::Other);
            },
            Some(d) => d,
        };
        match self.dir_path(dir.as_str()) {
            Err(e) => Err(e),
            Ok(mut segments) => {
                let fname = decode_filename(encoded.as_str());
                segments.push(fname);
                proof {
                    assert(segments.deep_view() =~= self.resolved_path(file@));
                }
                Ok(segments)
            },
        }
    }

    /// The absorbed diagnostics on a file's resolved path: the directory
    /// ids on the walk from its owning directory whose default name is
    /// missing, each the source of one empty segment in
    /// [`MsiTraverser::resolve`]'s result.  Succeeds and fails exactly as
    /// `resolve` does.
    pub fn missing_for_file(&self, file: &str) -> (r: Result<Vec<String>, Error>)
        ensures
            match r {
                Ok(missing) => self.resolvable(file@) && missing.deep_view()
                    == self.resolved_missing(file@),
                Err(e) => match e {
                    Error::Other => !self.chain_fields(file@) || !self.dir_names().contains_key(
                        self.spec_dir_of(file@),
                    ),
                    Error::MalformedHierarchy => self.chain_fields(file@)
                        && self.dir_names().contains_key(self.spec_dir_of(file@)) && dir_chain(
                        self.dir_parents(),
                        self.spec_dir_of(file@),
                        self.parent_links(),
                    ) is None,
                    Error::Contract(_) => false,
                },
            },
    {
        if self.f_name.get(file).is_none() {
            return Err(Error::Other);
        }
        let comp = match self.f_c.get(file) {
            None => {
                return Err(Error::Other);
            },
            Some(c) => c,
        };
        let dir = match self.c_d.get(comp.as_str()) {
            None => {
                return Err(Error::Other);
            },
            Some(d) => d,
        };
        self.missing_ancestors(dir.as_str())
    }
}

/// A fresh vector holding `s`, then `v`'s elements.
fn prepend(s: String, v: Vec<String>) -> (r: Vec<String>)
    ensures
        r.deep_view() == seq![s@] + v.deep_view(),
{
    let ghost sv = s@;
    let ghost vd = v.deep_view();
    let mut out: Vec<String> = Vec::new();
    out.push(s);
    let mut tail = v;
    out.append(&mut tail);
    proof {
        assert(out.deep_view() =~= seq![sv] + vd);
    }
    out
}

/// A fresh vector with the elements in reverse order.
fn reverse_strings(v: Vec<String>) -> (r: Vec<String>)
    ensures
        r@ == v@.reverse(),
        r.deep_view() == v.deep_view().reverse(),
{
    let n = v.len();
    let mut r: Vec<String> = Vec::new();
    let mut i: usize = 0;
    while i < n
        invariant
            n == v@.len(),
            i <= n,
            r@.len() == i,
            forall|j: int| 0 <= j < i ==> r@[j] == v@[n - 1 - j],
        decreases n - i,
    {
        let s = &v[n - 1 - i];
        r.push(s.clone());
        i = i + 1;
    }
    proof {
        assert(r@ =~= v@.reverse());
        assert(r.deep_view() =~= v.deep_view().reverse());
    }
    r
}

/// The same index, as the command-line walk-through keeps it.
pub struct MsiTrav {
    t: MsiTraverser,
}

impl MsiTrav {
    /// The underlying index.
    pub closed spec fn inner(&self) -> MsiTraverser {
        self.t
    }

    /// Builds the index from the rows of the three tables.
    pub fn from_rows(
        file_rows: &Vec<FileRow>,
        component_rows: &Vec<ComponentRow>,
        directory_rows: &Vec<DirectoryRow>,
    ) -> (t: MsiTrav)
        ensures
            t.inner().file_names() == file_name_map(file_rows_view(file_rows@)),
            t.inner().file_components() == file_component_map(file_rows_view(file_rows@)),
            t.inner().component_dirs() == component_dir_map(component_rows_view(component_rows@)),
            t.inner().dir_parents() == dir_parent_map(directory_rows_view(directory_rows@)),
            t.inner().dir_names() == dir_name_map(directory_rows_view(directory_rows@)),
            t.inner().parent_links() == dir_parent_count(directory_rows_view(directory_rows@)),
    {
        MsiTrav { t: MsiTraverser::from_rows(file_rows, component_rows, directory_rows) }
    }

    /// The full relative install path for a file id, as [`MsiTraverser::resolve`].
    pub fn file_full_path(&self, file: &str) -> (r: Result<Vec<String>, Error>)
        ensures
            match r {
                Ok(path) => self.inner().resolvable(file@) && path.deep_view()
                    == self.inner().resolved_path(file@),
                Err(e) => match e {
                    Error::Other => !self.inner().chain_fields(file@)
                        || !self.inner().dir_names().contains_key(self.inner().spec_dir_of(file@)),
                    Error::MalformedHierarchy => self.inner().chain_fields(file@)
                        && self.inner().dir_names().contains_key(self.inner().spec_dir_of(file@))
                        && dir_chain(
                        self.inner().dir_parents(),
                        self.inner().spec_dir_of(file@),
                        self.inner().parent_links(),
                    ) is None,
                    Error::Contract(_) => false,
                },
            },
    {
        self.t.resolve(file)
    }
}

} // verus!
