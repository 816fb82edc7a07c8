//! How much disk space the node's data takes up.

use vstd::prelude::*;

use crate::error::{ErrorView, PortalStorageError};
use crate::storage::PortalStorage;

verus! {

/// What the file system says of a path.
#[derive(Debug)]
pub enum DiskNode {
    /// There is nothing at the path that could be examined.
    Missing,
    /// A file.
    File { len: u64 },
    /// A directory whose listing could not be read.
    UnreadableDirectory { len: u64, error: String },
    /// A directory.
    Directory { len: u64, entries: Vec<DiskEntry> },
}

/// An entry of a directory.
#[derive(Debug)]
pub enum DiskEntry {
    /// The entry could not be read.
    Unreadable(String),
    /// The entry's path is not valid Unicode.
    NotUnicode(String),
    /// The entry's name, and what is at its path.
    Found { name: String, node: DiskNode },
}

/// The name of the accumulator database in the data directory.
pub const ACCUMULATOR_DB_NAME: &'static str = "accumulatordb";

/// The number of bytes at a path: its own, and for a directory also those of what it contains. The
/// first error in the order of the listings takes its place.
pub open spec fn disk_usage(node: DiskNode) -> Result<nat, ErrorView>
    decreases node,
{
    match node {
        DiskNode::Missing => Ok(0),
        DiskNode::File { len } => Ok(len as nat),
        DiskNode::UnreadableDirectory { len, error } => Err(ErrorView::IOError(error@)),
        DiskNode::Directory { len, entries } => add_usage(len as nat, entries_usage(entries@, None)),
    }
}

/// The number of bytes in a data directory, without those of the accumulator database.
pub open spec fn data_dir_usage(node: DiskNode) -> Result<nat, ErrorView> {
    match node {
        DiskNode::Directory { len, entries } => add_usage(
            len as nat,
            entries_usage(entries@, Some(ACCUMULATOR_DB_NAME@)),
        ),
        _ => disk_usage(node),
    }
}

/// Whether an entry has a name that is left out.
pub open spec fn left_out(entry: DiskEntry, without: Option<Seq<char>>) -> bool {
    entry matches DiskEntry::Found { name, .. } && without == Some(name@)
}

/// The number of bytes at the paths of some entries, without those of one name.
pub open spec fn entries_usage(entries: Seq<DiskEntry>, without: Option<Seq<char>>) -> Result<
    nat,
    ErrorView,
>
    decreases entries,
{
    if entries.len() == 0 {
        Ok(0)
    } else if left_out(entries[0], without) {
        entries_usage(entries.skip(1), without)
    } else {
        match entry_usage(entries[0]) {
            Ok(bytes) => add_usage(bytes, entries_usage(entries.skip(1), without)),
            Err(error) => Err(error),
        }
    }
}

/// The number of bytes at the path of an entry.
pub open spec fn entry_usage(entry: DiskEntry) -> Result<nat, ErrorView>
    decreases entry,
{
    match entry {
        DiskEntry::Unreadable(error) => Err(ErrorView::IOError(error@)),
        DiskEntry::NotUnicode(path) => Err(
            ErrorView::StringError {
                function_name: "get_total_size_of_directory_in_bytes"@,
                error: path@,
            },
        ),
        DiskEntry::Found { node, .. } => disk_usage(node),
    }
}

/// A number of bytes added to others.
pub open spec fn add_usage(bytes: nat, others: Result<nat, ErrorView>) -> Result<nat, ErrorView> {
    match others {
        Ok(others) => Ok(bytes + others),
        Err(error) => Err(error),
    }
}

/// Whether no sum that is formed while the bytes at a path are added up exceeds 64 bits.
pub open spec fn sums_fit(node: DiskNode) -> bool
    decreases node,
{
    match node {
        DiskNode::Directory { len, entries } => entry_sums_fit(len as nat, entries@, None),
        _ => true,
    }
}

/// The same for a data directory without the accumulator database.
pub open spec fn data_dir_sums_fit(node: DiskNode) -> bool {
    match node {
        DiskNode::Directory { len, entries } => entry_sums_fit(
            len as nat,
            entries@,
            Some(ACCUMULATOR_DB_NAME@),
        ),
        _ => true,
    }
}

/// The same for some entries, once some bytes have been added up.
pub open spec fn entry_sums_fit(
    bytes: nat,
    entries: Seq<DiskEntry>,
    without: Option<Seq<char>>,
) -> bool
    decreases entries,
{
    if entries.len() == 0 {
        true
    } else if left_out(entries[0], without) {
        entry_sums_fit(bytes, entries.skip(1), without)
    } else {
        entries[0] matches DiskEntry::Found { node, .. } ==> {
            &&& sums_fit(node)
            &&& disk_usage(node) matches Ok(more) ==> {
                &&& bytes + more <= u64::MAX
                &&& entry_sums_fit(bytes + more, entries.skip(1), without)
            }
        }
    }
}

impl PortalStorage {
    /// Determines how much disk space is being used to store the node's data, given what the file
    /// system says of its data directory. Intended for analysis: which content is stored does not
    /// depend on it. Does not include the accumulator database.
    pub fn get_total_storage_usage_in_bytes_on_disk(data_dir: &DiskNode) -> (result: Result<
        u64,
        PortalStorageError,
    >)
        requires
            data_dir_sums_fit(*data_dir),
        ensures
            match result {
                Ok(bytes) => data_dir_usage(*data_dir) == Ok::<nat, ErrorView>(bytes as nat),
                Err(error) => data_dir_usage(*data_dir) == Err::<nat, ErrorView>(error@),
            },
    {
        match data_dir {
            DiskNode::Directory { len, entries } => {
                let accumulator_db = ACCUMULATOR_DB_NAME.to_owned();
                PortalStorage::add_sizes(*len, entries, Some(&accumulator_db))
            },
            _ => PortalStorage::get_total_size_of_directory_in_bytes(data_dir),
        }
    }

    /// Adds up the bytes at a path.
    pub fn get_total_size_of_directory_in_bytes(node: &DiskNode) -> (result: Result<
        u64,
        PortalStorageError,
    >)
        requires
            sums_fit(*node),
        ensures
            match result {
                Ok(bytes) => disk_usage(*node) == Ok::<nat, ErrorView>(bytes as nat),
                Err(error) => disk_usage(*node) == Err::<nat, ErrorView>(error@),
            },
        decreases *node,
    {
        match node {
            DiskNode::Missing => Ok(0),
            DiskNode::File { len } => Ok(*len),
            DiskNode::UnreadableDirectory { len: _, error } => Err(
                PortalStorageError::IOError(error.clone()),
            ),
            DiskNode::Directory { len, entries } => PortalStorage::add_sizes(*len, entries, None),
        }
    }

    /// Adds the bytes at the paths of some entries to a size, without those of one name.
    fn add_sizes(len: u64, entries: &Vec<DiskEntry>, without: Option<&String>) -> (result: Result<
        u64,
        PortalStorageError,
    >)
        requires
            entry_sums_fit(len as nat, entries@, optional_name(without)),
        ensures
            match result {
                Ok(bytes) => add_usage(
                    len as nat,
                    entries_usage(entries@, optional_name(without)),
                ) == Ok::<nat, ErrorView>(bytes as nat),
                Err(error) => add_usage(
                    len as nat,
                    entries_usage(entries@, optional_name(without)),
                ) == Err::<nat, ErrorView>(error@),
            },
        decreases *entries,
    {
        let ghost name = optional_name(without);
        let mut size: u64 = len;
        let mut i: usize = 0;
        assert(entries@.skip(0) =~= entries@);
        while i < entries.len()
            invariant
                i <= entries@.len(),
                name == optional_name(without),
                add_usage(len as nat, entries_usage(entries@, name)) == add_usage(
                    size as nat,
                    entries_usage(entries@.skip(i as int), name),
                ),
                entry_sums_fit(size as nat, entries@.skip(i as int), name),
            decreases entries@.len() - i,
        {
            proof {
                reveal_with_fuel(entries_usage, 3);
                reveal_with_fuel(entry_usage, 3);
                reveal_with_fuel(entry_sums_fit, 3);
            }
            let ghost rest = entries@.skip(i as int);
            assert(rest[0] == entries@[i as int]);
            assert(rest.skip(1) =~= entries@.skip(i + 1));
            match &entries[i] {
                DiskEntry::Unreadable(error) => {
                    return Err(PortalStorageError::IOError(error.clone()));
                },
                DiskEntry::NotUnicode(path) => {
                    return Err(
                        PortalStorageError::StringError {
                            function_name: "get_total_size_of_directory_in_bytes".to_owned(),
                            error: path.clone(),
                        },
                    );
                },
                DiskEntry::Found { name: found, node } => {
                    let skip = match without {
                        Some(left_out_name) => *found == *left_out_name,
                        None => false,
                    };
                    if !skip {
                        match PortalStorage::get_total_size_of_directory_in_bytes(node) {
                            Ok(bytes) => {
                                size = size + bytes;
                            },
                            Err(error) => {
                                return Err(error);
                            },
                        }
                    }
                },
            }
            i = i + 1;
        }
        assert(entries@.skip(i as int).len() == 0);
        Ok(size)
    }
}

/// Determines whether the bytes in a data directory can be added up in 64 bits, as
/// `get_total_storage_usage_in_bytes_on_disk` adds them up.
pub fn data_dir_fits(node: &DiskNode) -> (fits: bool)
    ensures
        fits == data_dir_sums_fit(*node),
{
    match node {
        DiskNode::Directory { len, entries } => {
            let accumulator_db = ACCUMULATOR_DB_NAME.to_owned();
            entries_fit(*len, entries, Some(&accumulator_db))
        },
        _ => true,
    }
}

/// Determines whether the bytes at a path can be added up in 64 bits.
fn node_fits(node: &DiskNode) -> (fits: bool)
    ensures
        fits == sums_fit(*node),
    decreases *node,
{
    match node {
        DiskNode::Directory { len, entries } => entries_fit(*len, entries, None),
        _ => true,
    }
}

/// Determines whether the bytes at the paths of some entries can be added to a size in 64 bits,
/// without those of one name.
fn entries_fit(len: u64, entries: &Vec<DiskEntry>, without: Option<&String>) -> (fits: bool)
    ensures
        fits == entry_sums_fit(len as nat, entries@, optional_name(without)),
    decreases *entries,
{
    let ghost name = optional_name(without);
    let mut size: u64 = len;
    let mut i: usize = 0;
    assert(entries@.skip(0) =~= entries@);
    while i < entries.len()
        invariant
            i <= entries@.len(),
            name == optional_name(without),
            entry_sums_fit(len as nat, entries@, name) == entry_sums_fit(
                size as nat,
                entries@.skip(i as int),
                name,
            ),
        decreases entries@.len() - i,
    {
        proof {
            reveal_with_fuel(entry_sums_fit, 3);
        }
        let ghost rest = entries@.skip(i as int);
        assert(rest[0] == entries@[i as int]);
        assert(rest.skip(1) =~= entries@.skip(i + 1));
        let (found, node) = match &entries[i] {
            DiskEntry::Found { name: found, node } => (found, node),
            _ => {
                return true;
            },
        };
        let skip = match without {
            Some(left_out_name) => *found == *left_out_name,
            None => false,
        };
        if !skip {
            if !node_fits(node) {
                return false;
            }
            match PortalStorage::get_total_size_of_directory_in_bytes(node) {
                Ok(bytes) => {
                    if bytes > u64::MAX - size {
                        return false;
                    }
                    size = size + bytes;
                },
                Err(_) => {
                    return true;
                },
            }
        }
        i = i + 1;
    }
    assert(entries@.skip(i as int).len() == 0);
    true
}

/// The characters of an optional name.
pub open spec fn optional_name(name: Option<&String>) -> Option<Seq<char>> {
    match name {
        Some(name) => Some(name@),
        None => None,
    }
}

/// The sum of some numbers of bytes.
pub open spec fn sum(sizes: Seq<nat>) -> nat
    decreases sizes.len(),
{
    if sizes.len() == 0 {
        0
    } else {
        sizes[0] + sum(sizes.skip(1))
    }
}

/// Whether the first entries of a listing are readable paths with these numbers of bytes. An entry
/// whose name is left out counts for nothing.
pub open spec fn begins_with_sizes(
    entries: Seq<DiskEntry>,
    without: Option<Seq<char>>,
    sizes: Seq<nat>,
) -> bool {
    &&& sizes.len() <= entries.len()
    &&& forall|i: int|
        0 <= i < sizes.len() ==> {
            &&& #[trigger] entries[i] matches DiskEntry::Found { name, node }
            &&& if without == Some(name@) {
                sizes[i] == 0
            } else {
                disk_usage(node) == Ok::<nat, ErrorView>(sizes[i])
            }
        }
}

/// The bytes of the first entries are added to those of the others.
proof fn lemma_sizes_add_up(
    bytes: nat,
    entries: Seq<DiskEntry>,
    without: Option<Seq<char>>,
    sizes: Seq<nat>,
)
    requires
        begins_with_sizes(entries, without, sizes),
    ensures
        add_usage(bytes, entries_usage(entries, without)) == add_usage(
            bytes + sum(sizes),
            entries_usage(entries.skip(sizes.len() as int), without),
        ),
    decreases sizes.len(),
{
    reveal_with_fuel(entries_usage, 3);
    reveal_with_fuel(entry_usage, 3);
    if sizes.len() == 0 {
        assert(entries.skip(0) =~= entries);
    } else {
        assert(entries[0] is Found);
        let rest = entries.skip(1);
        let others = sizes.skip(1);
        assert forall|i: int| 0 <= i < others.len() implies {
            &&& #[trigger] rest[i] matches DiskEntry::Found { name, node }
            &&& if without == Some(name@) {
                others[i] == 0
            } else {
                disk_usage(node) == Ok::<nat, ErrorView>(others[i])
            }
        } by {
            assert(rest[i] == entries[i + 1]);
            assert(others[i] == sizes[i + 1]);
        }
        lemma_sizes_add_up(bytes + sizes[0], rest, without, others);
        assert(rest.skip(others.len() as int) =~= entries.skip(sizes.len() as int));
        assert(bytes + sizes[0] + sum(others) == bytes + sum(sizes));
    }
}

/// What is at a single path takes up its own bytes: nothing if there is nothing, a file's length if
/// it is a file. A directory that cannot be listed is an error with the listing's text.
pub proof fn law_single_path_takes_up_its_own_bytes(len: u64, error: String)
    ensures
        disk_usage(DiskNode::Missing) == Ok::<nat, ErrorView>(0),
        data_dir_usage(DiskNode::Missing) == Ok::<nat, ErrorView>(0),
        disk_usage(DiskNode::File { len }) == Ok::<nat, ErrorView>(len as nat),
        data_dir_usage(DiskNode::File { len }) == Ok::<nat, ErrorView>(len as nat),
        disk_usage(DiskNode::UnreadableDirectory { len, error }) == Err::<nat, ErrorView>(
            ErrorView::IOError(error@),
        ),
        data_dir_usage(DiskNode::UnreadableDirectory { len, error }) == Err::<nat, ErrorView>(
            ErrorView::IOError(error@),
        ),
        data_dir_sums_fit(DiskNode::Missing),
        data_dir_sums_fit(DiskNode::File { len }),
        data_dir_sums_fit(DiskNode::UnreadableDirectory { len, error }),
        sums_fit(DiskNode::Missing),
        sums_fit(DiskNode::File { len }),
        sums_fit(DiskNode::UnreadableDirectory { len, error }),
{
}

/// A directory takes up its own bytes and those of each of its entries, however many there are.
pub proof fn law_directory_adds_up_its_entries(len: u64, entries: Vec<DiskEntry>, sizes: Seq<nat>)
    requires
        sizes.len() == entries@.len(),
        forall|i: int|
            0 <= i < entries@.len() ==> (#[trigger] entries@[i] matches DiskEntry::Found { node, .. }
                && disk_usage(node) == Ok::<nat, ErrorView>(sizes[i])),
    ensures
        disk_usage(DiskNode::Directory { len, entries }) == Ok::<nat, ErrorView>(
            len as nat + sum(sizes),
        ),
{
    reveal_with_fuel(disk_usage, 3);
    assert(begins_with_sizes(entries@, None, sizes));
    lemma_sizes_add_up(len as nat, entries@, None, sizes);
    assert(entries_usage(entries@.skip(sizes.len() as int), None) == Ok::<nat, ErrorView>(0));
}

/// A data directory takes up its own bytes and those of each of its entries but the accumulator
/// database, however many there are.
pub proof fn law_data_directory_adds_up_its_entries(
    len: u64,
    entries: Vec<DiskEntry>,
    sizes: Seq<nat>,
)
    requires
        sizes.len() == entries@.len(),
        forall|i: int|
            0 <= i < entries@.len() ==> (#[trigger] entries@[i] matches DiskEntry::Found {
                name,
                node,
            } && if name@ == "accumulatordb"@ {
                sizes[i] == 0
            } else {
                disk_usage(node) == Ok::<nat, ErrorView>(sizes[i])
            }),
    ensures
        data_dir_usage(DiskNode::Directory { len, entries }) == Ok::<nat, ErrorView>(
            len as nat + sum(sizes),
        ),
{
    let without = Some(ACCUMULATOR_DB_NAME@);
    assert(begins_with_sizes(entries@, without, sizes));
    lemma_sizes_add_up(len as nat, entries@, without, sizes);
    assert(entries_usage(entries@.skip(sizes.len() as int), without) == Ok::<nat, ErrorView>(0));
}

/// Whether an entry is an error, and which: it cannot be read, its path is not valid Unicode, or
/// what is at its path is an error.
pub open spec fn entry_fails(entry: DiskEntry, error: ErrorView) -> bool {
    match entry {
        DiskEntry::Unreadable(text) => error == ErrorView::IOError(text@),
        DiskEntry::NotUnicode(path) => {
            &&& error matches ErrorView::StringError { function_name, error: text }
            &&& function_name == "get_total_size_of_directory_in_bytes"@
            &&& text == path@
        },
        DiskEntry::Found { node, .. } => disk_usage(node) == Err::<nat, ErrorView>(error),
    }
}

/// The first entry that is an error takes the place of the bytes, for a directory and for a data
/// directory. In a data directory the accumulator database is not looked at.
pub proof fn law_first_failing_entry_is_reported(
    len: u64,
    entries: Vec<DiskEntry>,
    sizes: Seq<nat>,
    error: ErrorView,
)
    requires
        sizes.len() < entries@.len(),
        entry_fails(entries@[sizes.len() as int], error),
    ensures
        begins_with_sizes(entries@, None, sizes) ==> disk_usage(
            DiskNode::Directory { len, entries },
        ) == Err::<nat, ErrorView>(error),
        begins_with_sizes(entries@, Some("accumulatordb"@), sizes) && !left_out(
            entries@[sizes.len() as int],
            Some("accumulatordb"@),
        ) ==> data_dir_usage(DiskNode::Directory { len, entries }) == Err::<nat, ErrorView>(error),
{
    reveal_with_fuel(disk_usage, 3);
    reveal_with_fuel(entries_usage, 3);
    reveal_with_fuel(entry_usage, 3);
    let rest = entries@.skip(sizes.len() as int);
    assert(rest[0] == entries@[sizes.len() as int]);
    let without = Some(ACCUMULATOR_DB_NAME@);
    if begins_with_sizes(entries@, None, sizes) {
        lemma_sizes_add_up(len as nat, entries@, None, sizes);
    }
    if begins_with_sizes(entries@, without, sizes) {
        lemma_sizes_add_up(len as nat, entries@, without, sizes);
    }
}

/// Sums that fit for the first entries and for what follows fit altogether.
proof fn lemma_sums_fit(
    bytes: nat,
    entries: Seq<DiskEntry>,
    without: Option<Seq<char>>,
    sizes: Seq<nat>,
)
    requires
        bytes <= u64::MAX,
        begins_with_sizes(entries, without, sizes),
        forall|i: int|
            0 <= i < sizes.len() ==> (#[trigger] entries[i] matches DiskEntry::Found { name, node }
                && (without == Some(name@) || sums_fit(node))),
    ensures
        entry_sums_fit(bytes, entries, without) <==> bytes + sum(sizes) <= u64::MAX
            && entry_sums_fit(bytes + sum(sizes), entries.skip(sizes.len() as int), without),
    decreases sizes.len(),
{
    reveal_with_fuel(entry_sums_fit, 3);
    if sizes.len() == 0 {
        assert(entries.skip(0) =~= entries);
    } else {
        assert(entries[0] is Found);
        let rest = entries.skip(1);
        let others = sizes.skip(1);
        assert forall|i: int| 0 <= i < others.len() implies {
            &&& #[trigger] rest[i] matches DiskEntry::Found { name, node }
            &&& without == Some(name@) || sums_fit(node)
            &&& if without == Some(name@) {
                others[i] == 0
            } else {
                disk_usage(node) == Ok::<nat, ErrorView>(others[i])
            }
        } by {
            assert(rest[i] == entries[i + 1]);
            assert(others[i] == sizes[i + 1]);
        }
        assert(sum(sizes) == sizes[0] + sum(others));
        if bytes + sizes[0] <= u64::MAX {
            lemma_sums_fit(bytes + sizes[0], rest, without, others);
            assert(rest.skip(others.len() as int) =~= entries.skip(sizes.len() as int));
            assert(bytes + sizes[0] + sum(others) == bytes + sum(sizes));
        }
    }
}

/// The bytes of a data directory whose entries can all be added up fit in 64 bits exactly if the sum
/// of them all does, without the accumulator database.
pub proof fn law_data_directory_fits_if_its_sum_does(
    len: u64,
    entries: Vec<DiskEntry>,
    sizes: Seq<nat>,
)
    requires
        sizes.len() == entries@.len(),
        begins_with_sizes(entries@, Some("accumulatordb"@), sizes),
        forall|i: int|
            0 <= i < sizes.len() ==> (#[trigger] entries@[i] matches DiskEntry::Found { name, node }
                && (name@ == "accumulatordb"@ || sums_fit(node))),
    ensures
        data_dir_sums_fit(DiskNode::Directory { len, entries }) <==> len + sum(sizes) <= u64::MAX,
{
    lemma_sums_fit(len as nat, entries@, Some(ACCUMULATOR_DB_NAME@), sizes);
    assert(entries@.skip(sizes.len() as int).len() == 0);
}

/// The same for any other directory.
pub proof fn law_directory_fits_if_its_sum_does(len: u64, entries: Vec<DiskEntry>, sizes: Seq<nat>)
    requires
        sizes.len() == entries@.len(),
        begins_with_sizes(entries@, None, sizes),
        forall|i: int|
            0 <= i < sizes.len() ==> (#[trigger] entries@[i] matches DiskEntry::Found { node, .. }
                && sums_fit(node)),
    ensures
        sums_fit(DiskNode::Directory { len, entries }) <==> len + sum(sizes) <= u64::MAX,
{
    reveal_with_fuel(sums_fit, 3);
    lemma_sums_fit(len as nat, entries@, None, sizes);
    assert(entries@.skip(sizes.len() as int).len() == 0);
}

/// Past an entry that is an error nothing is added up, so that what comes after it need not fit.
pub proof fn law_nothing_is_added_past_an_error(
    len: u64,
    entries: Vec<DiskEntry>,
    sizes: Seq<nat>,
    error: ErrorView,
)
    requires
        sizes.len() < entries@.len(),
        entry_fails(entries@[sizes.len() as int], error),
        entries@[sizes.len() as int] matches DiskEntry::Found { name, node } ==> sums_fit(node)
            && name@ != "accumulatordb"@,
    ensures
        begins_with_sizes(entries@, None, sizes) && (forall|i: int|
            0 <= i < sizes.len() ==> (#[trigger] entries@[i] matches DiskEntry::Found { node, .. }
                && sums_fit(node))) ==> (sums_fit(DiskNode::Directory { len, entries }) <==> len
            + sum(sizes) <= u64::MAX),
        begins_with_sizes(entries@, Some("accumulatordb"@), sizes) && (forall|i: int|
            0 <= i < sizes.len() ==> (#[trigger] entries@[i] matches DiskEntry::Found { name, node }
                && (name@ == "accumulatordb"@ || sums_fit(node)))) ==> (data_dir_sums_fit(
            DiskNode::Directory { len, entries },
        ) <==> len + sum(sizes) <= u64::MAX),
{
    reveal_with_fuel(sums_fit, 3);
    reveal_with_fuel(entry_sums_fit, 3);
    let rest = entries@.skip(sizes.len() as int);
    assert(rest[0] == entries@[sizes.len() as int]);
    let without = Some(ACCUMULATOR_DB_NAME@);
    if begins_with_sizes(entries@, None, sizes) && forall|i: int|
        0 <= i < sizes.len() ==> (#[trigger] entries@[i] matches DiskEntry::Found { node, .. }
            && sums_fit(node)) {
        lemma_sums_fit(len as nat, entries@, None, sizes);
    }
    if begins_with_sizes(entries@, without, sizes) && forall|i: int|
        0 <= i < sizes.len() ==> (#[trigger] entries@[i] matches DiskEntry::Found { name, node }
            && (name@ == "accumulatordb"@ || sums_fit(node))) {
        lemma_sums_fit(len as nat, entries@, without, sizes);
    }
}

/// An entry at the end of a listing adds its bytes to those before it, and its error counts if
/// there is none before it.
pub proof fn law_entries_usage_adds_up(entries: Seq<DiskEntry>, last: DiskEntry)
    ensures
        entries_usage(entries.push(last), None) == match entries_usage(entries, None) {
            Ok(bytes) => add_usage(bytes, entry_usage(last)),
            Err(error) => Err(error),
        },
    decreases entries.len(),
{
    reveal_with_fuel(entries_usage, 3);
    let longer = entries.push(last);
    if entries.len() == 0 {
        assert(longer.skip(1).len() == 0);
    } else {
        assert(longer[0] == entries[0]);
        assert(longer.skip(1) =~= entries.skip(1).push(last));
        law_entries_usage_adds_up(entries.skip(1), last);
    }
}

/// Whatever is in the accumulator database, the bytes in the data directory are the same.
pub proof fn law_accumulator_database_is_not_counted(
    len: u64,
    entries: Vec<DiskEntry>,
    others: Vec<DiskEntry>,
    i: int,
)
    requires
        0 <= i < entries@.len(),
        left_out(entries@[i], Some(ACCUMULATOR_DB_NAME@)),
        others@ == entries@.remove(i),
    ensures
        data_dir_usage(DiskNode::Directory { len, entries }) == data_dir_usage(
            DiskNode::Directory { len, entries: others },
        ),
{
    lemma_left_out(entries@, i, Some(ACCUMULATOR_DB_NAME@));
}

/// An entry that is left out may as well not be there.
proof fn lemma_left_out(entries: Seq<DiskEntry>, i: int, without: Option<Seq<char>>)
    requires
        0 <= i < entries.len(),
        left_out(entries[i], without),
    ensures
        entries_usage(entries, without) == entries_usage(entries.remove(i), without),
    decreases entries.len(),
{
    reveal_with_fuel(entries_usage, 3);
    if i == 0 {
        assert(entries.remove(0) =~= entries.skip(1));
    } else {
        assert(entries.skip(1)[i - 1] == entries[i]);
        assert(entries.remove(i).skip(1) =~= entries.skip(1).remove(i - 1));
        assert(entries.remove(i)[0] == entries[0]);
        lemma_left_out(entries.skip(1), i - 1, without);
    }
}

} // verus!
