//! The cabinet locator and the extraction engine.
//!
//! The package is a relational container with named binary streams; one
//! stream holds a compressed cabinet whose entries are named by file ids.
//! The `msi` crate reads the container and the `cab` crate reads the
//! cabinet; both are reached only through the trusted items below, and the
//! logic around them — locating the cabinet stream, resolving every entry,
//! pairing it with its decompressed bytes — is verified against their
//! contracts.
//!
//! The package and the cabinet live wholly in memory, so everything read
//! from them is a function of their value alone.  [`PackageContent`] names
//! that content — the stream list, the readable streams' bytes, and the
//! three tables' rows as plain option-string fields — and every trusted
//! item's contract is stated over it, so that opening, indexing and
//! extraction carry exact success conditions.

use vstd::prelude::*;
use vstd::string::StrSliceExecFns;

use std::io::Read;

use crate::error::Error;
use crate::traverse::ComponentRow;
use crate::traverse::DirectoryRow;
use crate::traverse::FileRow;
use crate::traverse::MsiTraverser;
use crate::traverse::component_dir_map;
use crate::traverse::component_rows_view;
use crate::traverse::dir_chain;
use crate::traverse::dir_name_map;
use crate::traverse::dir_parent_count;
use crate::traverse::dir_parent_map;
use crate::traverse::directory_rows_view;
use crate::traverse::file_component_map;
use crate::traverse::file_name_map;
use crate::traverse::file_rows_view;

verus! {

/// Declares `std::io::Cursor` so the in-memory package and cabinet readers
/// can appear in signatures.
#[verifier::external_type_specification]
#[verifier::external_body]
#[verifier::reject_recursive_types(T)]
pub struct ExCursor<T>(std::io::Cursor<T>);

/// Declares `msi::Package`, the relational container.
#[verifier::external_type_specification]
#[verifier::external_body]
#[verifier::reject_recursive_types(F)]
pub struct ExPackage<F>(msi::Package<F>);

/// Declares `cab::Cabinet`, the compressed archive.
#[verifier::external_type_specification]
#[verifier::external_body]
#[verifier::reject_recursive_types(R)]
pub struct ExCabinet<R: ?Sized>(cab::Cabinet<R>);

/// The logical content of an opened package, all of it a function of the
/// in-memory package value: the stream names in enumeration order; the
/// streams that read fully, each with its bytes (a listed name is absent
/// here exactly when reading it fails); and, for each of the three tables,
/// whether selecting its rows succeeds and the rows as plain option-string
/// fields, in row order.
pub ghost struct PackageContent {
    pub stream_names: Seq<Seq<char>>,
    pub streams: Map<Seq<char>, Seq<u8>>,
    pub file_ok: bool,
    pub file_rows: Seq<(Option<Seq<char>>, Option<Seq<char>>, Option<Seq<char>>)>,
    pub component_ok: bool,
    pub component_rows: Seq<(Option<Seq<char>>, Option<Seq<char>>)>,
    pub directory_ok: bool,
    pub directory_rows: Seq<(Option<Seq<char>>, Option<Seq<char>>, Option<Seq<char>>)>,
}

/// The content of a package value; reads leave it unchanged.
pub uninterp spec fn package_content(p: msi::Package<std::io::Cursor<Vec<u8>>>) -> PackageContent;

/// What `msi::Package::open` yields on the given bytes: `None` when the
/// bytes do not parse as a package, else the opened package's content.
pub uninterp spec fn opened_content(bytes: Seq<u8>) -> Option<PackageContent>;

/// Whether `cab::Cabinet::new` accepts the given bytes as a cabinet.
pub uninterp spec fn cabinet_ok(bytes: Seq<u8>) -> bool;

/// The entry names of the cabinet parsed from the given bytes, folders
/// flattened in order.
pub uninterp spec fn cab_names_of(bytes: Seq<u8>) -> Seq<Seq<char>>;

/// The decompressed bytes of the named entry of the cabinet parsed from the
/// given bytes.
pub uninterp spec fn cab_data_of(bytes: Seq<u8>, name: Seq<char>) -> Seq<u8>;

/// The entry names of a cabinet, folders flattened in order.
pub uninterp spec fn cab_names(c: cab::Cabinet<std::io::Cursor<Vec<u8>>>) -> Seq<Seq<char>>;

/// The decompressed bytes of a cabinet's named entry.
pub uninterp spec fn cab_data(c: cab::Cabinet<std::io::Cursor<Vec<u8>>>, name: Seq<char>) -> Seq<
    u8,
>;

/// Whether reading the named entry of a cabinet succeeds; with the cabinet
/// in memory, a function of the cabinet value and the name.
pub uninterp spec fn cab_entry_ok(
    c: cab::Cabinet<std::io::Cursor<Vec<u8>>>,
    name: Seq<char>,
) -> bool;

/// Relies on `msi::Package::select_rows` over the `File` table with its
/// three columns selected: succeeds exactly when the table yields its rows,
/// which are handed out as their plain string fields.  Reading leaves the
/// package's content unchanged.
#[verifier::external_body]
fn select_file_rows(p: &mut msi::Package<std::io::Cursor<Vec<u8>>>) -> (r: Result<
    Vec<FileRow>,
    Error,
>)
    ensures
        package_content(*final(p)) == package_content(*old(p)),
        r is Ok <==> package_content(*old(p)).file_ok,
        r is Ok ==> file_rows_view(r->Ok_0@) == package_content(*old(p)).file_rows,
        r is Err ==> r->Err_0 is Contract,
{
    let q = msi::Select::table("File").columns(&["File", "FileName", "Component_"]);
    let rows = match p.select_rows(q) {
        Ok(rows) => rows,
        Err(e) => return Err(Error::Contract(e)),
    };
    Ok(rows.map(|r| FileRow {
        file: r[0].as_str().map(|s| s.to_owned()),
        filename: r[1].as_str().map(|s| s.to_owned()),
        component: r[2].as_str().map(|s| s.to_owned()),
    }).collect())
}

/// Relies on `msi::Package::select_rows` over the `Component` table, as
/// above.
#[verifier::external_body]
fn select_component_rows(p: &mut msi::Package<std::io::Cursor<Vec<u8>>>) -> (r: Result<
    Vec<ComponentRow>,
    Error,
>)
    ensures
        package_content(*final(p)) == package_content(*old(p)),
        r is Ok <==> package_content(*old(p)).component_ok,
        r is Ok ==> component_rows_view(r->Ok_0@) == package_content(*old(p)).component_rows,
        r is Err ==> r->Err_0 is Contract,
{
    let q = msi::Select::table("Component").columns(&["Component", "Directory_"]);
    let rows = match p.select_rows(q) {
        Ok(rows) => rows,
        Err(e) => return Err(Error::Contract(e)),
    };
    Ok(rows.map(|r| ComponentRow {
        component: r[0].as_str().map(|s| s.to_owned()),
        directory: r[1].as_str().map(|s| s.to_owned()),
    }).collect())
}

/// Relies on `msi::Package::select_rows` over the `Directory` table, as
/// above.
#[verifier::external_body]
fn select_directory_rows(p: &mut msi::Package<std::io::Cursor<Vec<u8>>>) -> (r: Result<
    Vec<DirectoryRow>,
    Error,
>)
    ensures
        package_content(*final(p)) == package_content(*old(p)),
        r is Ok <==> package_content(*old(p)).directory_ok,
        r is Ok ==> directory_rows_view(r->Ok_0@) == package_content(*old(p)).directory_rows,
        r is Err ==> r->Err_0 is Contract,
{
    let q = msi::Select::table("Directory").columns(&["Directory", "Directory_Parent", "DefaultDir"]);
    let rows = match p.select_rows(q) {
        Ok(rows) => rows,
        Err(e) => return Err(Error::Contract(e)),
    };
    Ok(rows.map(|r| DirectoryRow {
        directory: r[0].as_str().map(|s| s.to_owned()),
        parent: r[1].as_str().map(|s| s.to_owned()),
        default_dir: r[2].as_str().map(|s| s.to_owned()),
    }).collect())
}

/// Relies on `msi::Package::open`: parses a package from in-memory bytes;
/// succeeds exactly when the bytes parse, and the opened package's content
/// is a function of the bytes.  Honest caveat: on certain crafted packages
/// whose metadata tables hold unexpected cell types, `Package::open` panics
/// instead of returning an error; such bytes cannot be told apart here, so
/// the library's no-panic promise stops at this call.
#[verifier::external_body]
fn open_package_raw(bytes: Vec<u8>) -> (r: Result<msi::Package<std::io::Cursor<Vec<u8>>>, Error>)
    ensures
        r is Ok <==> opened_content(bytes@) is Some,
        r is Ok ==> package_content(r->Ok_0) == opened_content(bytes@)->Some_0,
        r is Err ==> r->Err_0 is Contract,
{
    msi::Package::open(std::io::Cursor::new(bytes)).map_err(Error::Contract)
}

/// Relies on `msi::Package::streams`: hands out the stream names.
#[verifier::external_body]
fn stream_names(p: &msi::Package<std::io::Cursor<Vec<u8>>>) -> (r: Vec<String>)
    ensures
        r.deep_view() == package_content(*p).stream_names,
{
    p.streams().collect()
}

/// Relies on `msi::Package::read_stream` and `std::io::Read::read_to_end`:
/// opens the named stream and reads it fully, which succeeds exactly for the
/// streams in the content's map.  The package's content is unchanged.
#[verifier::external_body]
fn read_stream_to_bytes(p: &mut msi::Package<std::io::Cursor<Vec<u8>>>, name: &str) -> (r: Result<
    Vec<u8>,
    Error,
>)
    ensures
        package_content(*final(p)) == package_content(*old(p)),
        r is Ok <==> package_content(*old(p)).streams.contains_key(name@),
        r is Ok ==> r->Ok_0@ == package_content(*old(p)).streams[name@],
        r is Err ==> r->Err_0 is Contract,
{
    let mut reader = match p.read_stream(name) {
        Ok(reader) => reader,
        Err(e) => return Err(Error::Contract(e)),
    };
    let mut buf: Vec<u8> = Vec::new();
    match reader.read_to_end(&mut buf) {
        Ok(_) => Ok(buf),
        Err(e) => Err(Error::Contract(e)),
    }
}

/// Relies on `cab::Cabinet::new`: parses a cabinet from in-memory bytes;
/// succeeds exactly when the bytes parse, and the cabinet's entry names and
/// data are functions of the bytes.
#[verifier::external_body]
fn open_cabinet(bytes: Vec<u8>) -> (r: Result<cab::Cabinet<std::io::Cursor<Vec<u8>>>, Error>)
    ensures
        r is Ok <==> cabinet_ok(bytes@),
        r is Ok ==> cab_names(r->Ok_0) == cab_names_of(bytes@),
        r is Ok ==> forall|n: Seq<char>| cab_data(r->Ok_0, n) == cab_data_of(bytes@, n),
        r is Err ==> r->Err_0 is Contract,
{
    cab::Cabinet::new(std::io::Cursor::new(bytes)).map_err(Error::Contract)
}

/// Relies on `cab::Cabinet::folder_entries` and
/// `cab::FolderEntry::file_entries`: hands out the entry names, which
/// `cab_names` denotes.
#[verifier::external_body]
fn cab_entry_names(c: &cab::Cabinet<std::io::Cursor<Vec<u8>>>) -> (r: Vec<String>)
    ensures
        r.deep_view() == cab_names(*c),
{
    let mut names: Vec<String> = Vec::new();
    for folder in c.folder_entries() {
        for entry in folder.file_entries() {
            names.push(entry.name().to_owned());
        }
    }
    names
}

/// Relies on `cab::Cabinet::read_file` and `std::io::Read::read_to_end`:
/// reads the named entry's decompressed bytes, which succeeds exactly when
/// `cab_entry_ok` holds.  Reading moves the underlying cursor with absolute
/// seeks, so the entry tables and every later read are unaffected.  Honest
/// caveat: on a crafted cabinet whose entry claims an uncompressed offset
/// beyond its folder's data blocks, `read_file` panics instead of returning
/// an error; the offset is not exposed by the crate, so it cannot be checked
/// here, and the library's no-panic promise stops at this call.
#[verifier::external_body]
fn read_cab_entry(c: &mut cab::Cabinet<std::io::Cursor<Vec<u8>>>, name: &str) -> (r: Result<
    Vec<u8>,
    Error,
>)
    ensures
        cab_names(*final(c)) == cab_names(*old(c)),
        forall|n: Seq<char>| cab_data(*final(c), n) == cab_data(*old(c), n),
        forall|n: Seq<char>| cab_entry_ok(*final(c), n) == cab_entry_ok(*old(c), n),
        r is Ok <==> cab_entry_ok(*old(c), name@),
        r is Ok ==> r->Ok_0@ == cab_data(*old(c), name@),
        r is Err ==> r->Err_0 is Contract,
{
    let mut reader = match c.read_file(name) {
        Ok(reader) => reader,
        Err(e) => return Err(Error::Contract(e)),
    };
    let mut buf: Vec<u8> = Vec::new();
    match reader.read_to_end(&mut buf) {
        Ok(_) => Ok(buf),
        Err(e) => Err(Error::Contract(e)),
    }
}

/// The stream name ends in the cabinet file extension.
pub open spec fn has_cab_suffix(s: Seq<char>) -> bool {
    &&& s.len() >= 4
    &&& s[s.len() - 4] == '.'
    &&& s[s.len() - 3] == 'c'
    &&& s[s.len() - 2] == 'a'
    &&& s[s.len() - 1] == 'b'
}

/// Index of the first stream name with the cabinet suffix, if any.
pub open spec fn spec_find_cab(names: Seq<Seq<char>>) -> Option<int>
    decreases names.len(),
{
    if names.len() == 0 {
        None
    } else if has_cab_suffix(names[0]) {
        Some(0)
    } else {
        match spec_find_cab(names.drop_first()) {
            Some(i) => Some(i + 1),
            None => None,
        }
    }
}

/// A position with the suffix and none before it is what `spec_find_cab`
/// returns.
proof fn lemma_find_cab_at(names: Seq<Seq<char>>, i: int)
    requires
        0 <= i < names.len(),
        has_cab_suffix(names[i]),
        forall|j: int| 0 <= j < i ==> !has_cab_suffix(names[j]),
    ensures
        spec_find_cab(names) == Some(i),
    decreases i,
{
    if i == 0 {
    } else {
        let t = names.drop_first();
        assert(forall|j: int| 0 <= j < t.len() ==> t[j] == names[j + 1]);
        lemma_find_cab_at(t, i - 1);
    }
}

/// Without any suffixed name, `spec_find_cab` returns `None`.
proof fn lemma_find_cab_none(names: Seq<Seq<char>>)
    requires
        forall|j: int| 0 <= j < names.len() ==> !has_cab_suffix(names[j]),
    ensures
        spec_find_cab(names) is None,
    decreases names.len(),
{
    if names.len() == 0 {
    } else {
        let t = names.drop_first();
        assert(forall|j: int| 0 <= j < t.len() ==> t[j] == names[j + 1]);
        lemma_find_cab_none(t);
    }
}

/// Whether the name ends in the cabinet file extension.
fn ends_with_cab(s: &str) -> (r: bool)
    ensures
        r == has_cab_suffix(s@),
{
    let n = s.unicode_len();
    if n < 4 {
        return false;
    }
    s.get_char(n - 4) == '.' && s.get_char(n - 3) == 'c' && s.get_char(n - 2) == 'a' && s.get_char(
        n - 1,
    ) == 'b'
}

/// The first name with the cabinet suffix, if any.
fn find_cab_name(names: &Vec<String>) -> (r: Option<String>)
    ensures
        match r {
            Some(s) => spec_find_cab(names.deep_view()) is Some && s@ == names.deep_view()[spec_find_cab(
                names.deep_view(),
            )->Some_0],
            None => spec_find_cab(names.deep_view()) is None,
        },
{
    let mut i: usize = 0;
    while i < names.len()
        invariant
            i <= names@.len(),
            forall|j: int| 0 <= j < i ==> !has_cab_suffix(names.deep_view()[j]),
        decreases names@.len() - i,
    {
        let name = &names[i];
        if ends_with_cab(name.as_str()) {
            proof {
                lemma_find_cab_at(names.deep_view(), i as int);
            }
            return Some(name.clone());
        }
        i = i + 1;
    }
    proof {
        lemma_find_cab_none(names.deep_view());
    }
    None
}

impl MsiTraverser {
    /// Builds the index by reading the three tables from the package, which
    /// is only read.  Succeeds exactly when all three tables yield their
    /// rows — row contents never cause a failure — and then the index is
    /// exactly the maps built from the package's rows.
    pub fn new(package: &mut msi::Package<std::io::Cursor<Vec<u8>>>) -> (r: Result<
        MsiTraverser,
        Error,
    >)
        ensures
            package_content(*final(package)) == package_content(*old(package)),
            ({
                let pc = package_content(*old(package));
                &&& (r is Ok <==> pc.file_ok && pc.component_ok && pc.directory_ok)
                &&& (r is Ok ==> ({
                    let t = r->Ok_0;
                    &&& t.file_names() == file_name_map(pc.file_rows)
                    &&& t.file_components() == file_component_map(pc.file_rows)
                    &&& t.component_dirs() == component_dir_map(pc.component_rows)
                    &&& t.dir_parents() == dir_parent_map(pc.directory_rows)
                    &&& t.dir_names() == dir_name_map(pc.directory_rows)
                    &&& t.parent_links() == dir_parent_count(pc.directory_rows)
                }))
                &&& (r is Err ==> r->Err_0 is Contract)
            }),
    {
        let file_rows = match select_file_rows(package) {
            Ok(rows) => rows,
            Err(e) => return Err(e),
        };
        let component_rows = match select_component_rows(package) {
            Ok(rows) => rows,
            Err(e) => return Err(e),
        };
        let directory_rows = match select_directory_rows(package) {
            Ok(rows) => rows,
            Err(e) => return Err(e),
        };
        Ok(MsiTraverser::from_rows(&file_rows, &component_rows, &directory_rows))
    }
}

/// What became of one cabinet entry.
#[derive(Debug)]
pub enum EntryStatus {
    /// The entry resolved; its path segments and decompressed bytes.
    Extracted(Vec<String>, Vec<u8>),
    /// The entry's id has no resolvable path; it is skipped.
    Unresolvable(Error),
    /// The entry resolved but its bytes could not be read; it is skipped.
    Unreadable(Error),
}

/// One cabinet entry's name with its outcome.
#[derive(Debug)]
pub struct EntryResult {
    pub name: String,
    pub status: EntryStatus,
}

/// The exact promise `extract_entries` makes for one entry: extracted with
/// its resolved path and its bytes exactly when its id resolves and its data
/// reads; otherwise reported with the reason.
pub open spec fn entry_spec(
    t: MsiTraverser,
    c: cab::Cabinet<std::io::Cursor<Vec<u8>>>,
    name: Seq<char>,
    e: EntryResult,
) -> bool {
    &&& e.name@ == name
    &&& match e.status {
        EntryStatus::Extracted(segments, data) => t.resolvable(name) && cab_entry_ok(c, name)
            && segments.deep_view() == t.resolved_path(name) && data@ == cab_data(c, name),
        EntryStatus::Unresolvable(err) => match err {
            Error::Other => !t.chain_fields(name) || !t.dir_names().contains_key(
                t.spec_dir_of(name),
            ),
            Error::MalformedHierarchy => t.chain_fields(name) && t.dir_names().contains_key(
                t.spec_dir_of(name),
            ) && dir_chain(t.dir_parents(), t.spec_dir_of(name), t.parent_links()) is None,
            Error::Contract(_) => false,
        },
        EntryStatus::Unreadable(_) => t.resolvable(name) && !cab_entry_ok(c, name),
    }
}

/// The stream name under which the cabinet is stored: the first one with
/// the cabinet suffix.
pub open spec fn cab_stream_name(pc: PackageContent) -> Seq<char>
    recommends
        spec_find_cab(pc.stream_names) is Some,
{
    pc.stream_names[spec_find_cab(pc.stream_names)->Some_0]
}

/// When opening a package succeeds: the three tables yield their rows, a
/// cabinet-suffixed stream exists, its bytes read, and they parse as a
/// cabinet.
pub open spec fn open_conditions(pc: PackageContent) -> bool {
    &&& pc.file_ok
    &&& pc.component_ok
    &&& pc.directory_ok
    &&& spec_find_cab(pc.stream_names) is Some
    &&& pc.streams.contains_key(cab_stream_name(pc))
    &&& cabinet_ok(pc.streams[cab_stream_name(pc)])
}

/// The opened extractor, determined by the package's content: the index is
/// the maps built from the table rows, and the cabinet is the one parsed
/// from the located stream's bytes.
pub open spec fn extractor_matches(ex: MsiExtractor, pc: PackageContent) -> bool {
    &&& ex.index().file_names() == file_name_map(pc.file_rows)
    &&& ex.index().file_components() == file_component_map(pc.file_rows)
    &&& ex.index().component_dirs() == component_dir_map(pc.component_rows)
    &&& ex.index().dir_parents() == dir_parent_map(pc.directory_rows)
    &&& ex.index().dir_names() == dir_name_map(pc.directory_rows)
    &&& ex.index().parent_links() == dir_parent_count(pc.directory_rows)
    &&& cab_names(ex.cabinet()) == cab_names_of(pc.streams[cab_stream_name(pc)])
    &&& forall|n: Seq<char>|
        cab_data(ex.cabinet(), n) == cab_data_of(pc.streams[cab_stream_name(pc)], n)
}

/// An opened package: the cabinet stream and the table index.
pub struct MsiExtractor {
    cab: cab::Cabinet<std::io::Cursor<Vec<u8>>>,
    traverser: MsiTraverser,
}

impl MsiExtractor {
    /// The table index.
    pub closed spec fn index(&self) -> MsiTraverser {
        self.traverser
    }

    /// The opened cabinet.
    pub closed spec fn cabinet(&self) -> cab::Cabinet<std::io::Cursor<Vec<u8>>> {
        self.cab
    }

    /// Opens an already-parsed package: builds the table index, locates the
    /// first stream named with the cabinet suffix, and opens it as a
    /// cabinet.  Succeeds exactly under [`open_conditions`], and the result
    /// is fixed by the package's content.
    pub fn from_msi(mut package: msi::Package<std::io::Cursor<Vec<u8>>>) -> (r: Result<
        MsiExtractor,
        Error,
    >)
        ensures
            r is Ok <==> open_conditions(package_content(package)),
            r is Ok ==> extractor_matches(r->Ok_0, package_content(package)),
    {
        let ghost pc = package_content(package);
        let traverser = match MsiTraverser::new(&mut package) {
            Ok(t) => t,
            Err(e) => return Err(e),
        };
        let names = stream_names(&package);
        let cab_name = match find_cab_name(&names) {
            Some(n) => n,
            None => return Err(Error::Other),
        };
        proof {
            assert(cab_name@ == cab_stream_name(pc));
        }
        let bytes = match read_stream_to_bytes(&mut package, cab_name.as_str()) {
            Ok(b) => b,
            Err(e) => return Err(e),
        };
        let cab = match open_cabinet(bytes) {
            Ok(c) => c,
            Err(e) => return Err(e),
        };
        Ok(MsiExtractor { cab, traverser })
    }

    /// Parses a package from in-memory bytes and opens it as
    /// [`MsiExtractor::from_msi`]: succeeds exactly when the bytes parse as
    /// a package that meets [`open_conditions`], and the result is fixed by
    /// the bytes.
    pub fn from_reader(bytes: Vec<u8>) -> (r: Result<MsiExtractor, Error>)
        ensures
            r is Ok <==> opened_content(bytes@) is Some && open_conditions(
                opened_content(bytes@)->Some_0,
            ),
            r is Ok ==> extractor_matches(r->Ok_0, opened_content(bytes@)->Some_0),
    {
        match open_package_raw(bytes) {
            Ok(package) => MsiExtractor::from_msi(package),
            Err(e) => Err(e),
        }
    }

    /// Resolves every cabinet entry and pairs it with its decompressed
    /// bytes.  One outcome per entry, in cabinet order: an entry is
    /// extracted exactly when it resolves and its data reads; one that does
    /// not is reported and skipped, never aborting the rest.
    pub fn extract_entries(&mut self) -> (r: Vec<EntryResult>)
        ensures
            final(self).index() == old(self).index(),
            cab_names(final(self).cabinet()) == cab_names(old(self).cabinet()),
            forall|n: Seq<char>|
                cab_data(final(self).cabinet(), n) == cab_data(old(self).cabinet(), n),
            forall|n: Seq<char>|
                cab_entry_ok(final(self).cabinet(), n) == cab_entry_ok(old(self).cabinet(), n),
            r@.len() == cab_names(old(self).cabinet()).len(),
            forall|i: int|
                0 <= i < r@.len() ==> entry_spec(
                    old(self).index(),
                    old(self).cabinet(),
                    cab_names(old(self).cabinet())[i],
                    r@[i],
                ),
    {
        let names = cab_entry_names(&self.cab);
        let mut results: Vec<EntryResult> = Vec::new();
        let mut i: usize = 0;
        while i < names.len()
            invariant
                i <= names@.len(),
                names.deep_view() == cab_names(old(self).cabinet()),
                self.index() == old(self).index(),
                cab_names(self.cabinet()) == cab_names(old(self).cabinet()),
                forall|n: Seq<char>|
                    cab_data(self.cabinet(), n) == cab_data(old(self).cabinet(), n),
                forall|n: Seq<char>|
                    cab_entry_ok(self.cabinet(), n) == cab_entry_ok(old(self).cabinet(), n),
                results@.len() == i,
                forall|j: int|
                    0 <= j < i ==> entry_spec(
                        old(self).index(),
                        old(self).cabinet(),
                        names.deep_view()[j],
                        results@[j],
                    ),
            decreases names@.len() - i,
        {
            let name = &names[i];
            let status = match self.traverser.resolve(name.as_str()) {
                Err(e) => EntryStatus::Unresolvable(e),
                Ok(segments) => match read_cab_entry(&mut self.cab, name.as_str()) {
                    Ok(data) => EntryStatus::Extracted(segments, data),
                    Err(e) => EntryStatus::Unreadable(e),
                },
            };
            results.push(EntryResult { name: name.clone(), status });
            i = i + 1;
        }
        results
    }

    /// The absorbed diagnostics for one cabinet entry, by its file id: the
    /// directory ids on its resolved path whose default name is missing,
    /// each the source of one empty segment.  An extraction caller reports
    /// these as warnings beside the outcome; they never fail a resolution.
    pub fn missing_for_entry(&self, name: &str) -> (r: Result<Vec<String>, Error>)
        ensures
            match r {
                Ok(missing) => self.index().resolvable(name@) && missing.deep_view()
                    == self.index().resolved_missing(name@),
                Err(e) => match e {
                    Error::Other => !self.index().chain_fields(name@)
                        || !self.index().dir_names().contains_key(self.index().spec_dir_of(name@)),
                    Error::MalformedHierarchy => self.index().chain_fields(name@)
                        && self.index().dir_names().contains_key(self.index().spec_dir_of(name@))
                        && dir_chain(
                        self.index().dir_parents(),
                        self.index().spec_dir_of(name@),
                        self.index().parent_links(),
                    ) is None,
                    Error::Contract(_) => false,
                },
            },
    {
        self.traverser.missing_for_file(name)
    }
}

} // verus!
