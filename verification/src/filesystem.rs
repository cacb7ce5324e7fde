//! Files in an app's own directory: how paths resolve, and how a directory is listed.
use crate::json::{no_entries, no_fields, trees, whole, with_fields, Json, JsonView};
use crate::order::{
    keyed, sort_by_name, sorted_by_name, sorted_by_name_never_descends, text_before,
};
use crate::text::{begins_with, chars_of, ends_in, joined, joined3};
use vstd::prelude::*;

verus! {

/// An entry of a directory.
#[derive(Debug, PartialEq, Eq)]
pub struct FileEntry {
    pub name: String,
    pub is_directory: bool,
    /// The size of a file in bytes; zero for a directory.
    pub size: u64,
    pub modified_unix_secs: Option<i64>,
}

/// The directory that relative paths start from: the home directory, or the root where none is
/// known.
pub fn home_directory(home: Option<String>) -> (directory: String)
    ensures
        directory@ == (match home {
            Some(path) => path@,
            None => "/"@,
        }),
{
    match home {
        Some(path) => path,
        None => "/".to_owned(),
    }
}

/// Whether a path is absolute.
pub open spec fn is_absolute(path: Seq<char>) -> bool {
    path.len() > 0 && path[0] == '/'
}

/// A path below a directory: a slash stands between them, unless the directory ends in one or is
/// empty.
pub open spec fn below(directory: Seq<char>, path: Seq<char>) -> Seq<char> {
    if directory.len() == 0 || directory.last() == '/' {
        directory + path
    } else {
        directory + "/"@ + path
    }
}

/// Where a path leads: an absolute path to itself, a relative one below the home directory.
pub open spec fn resolved(path: Seq<char>, home: Seq<char>) -> Seq<char> {
    if is_absolute(path) {
        path
    } else {
        below(home, path)
    }
}

/// Where a path leads: an absolute path to itself, a relative one below the home directory.
pub fn resolve(path: &str, home: &str) -> (result: String)
    ensures
        result@ == resolved(path@, home@),
{
    let chars = chars_of(path);
    if chars.len() > 0 && chars[0] == '/' {
        return path.to_owned();
    }
    let start = chars_of(home);
    if start.len() == 0 || start[start.len() - 1] == '/' {
        joined(home, path)
    } else {
        joined3(home, "/", path)
    }
}

/// Resolving twice is resolving once, where the home directory is absolute.
pub proof fn resolve_is_stable(path: Seq<char>, home: Seq<char>)
    requires
        is_absolute(home),
    ensures
        resolved(resolved(path, home), home) == resolved(path, home),
        is_absolute(resolved(path, home)),
{
    if !is_absolute(path) {
        assert(resolved(path, home)[0] == home[0]);
    }
}

/// A relative path leads to where the home directory's text begins.
pub proof fn relative_path_is_below_home(path: Seq<char>, home: Seq<char>)
    requires
        !is_absolute(path),
    ensures
        home.is_prefix_of(resolved(path, home)),
{
    assert(resolved(path, home).take(home.len() as int) =~= home);
}

/// What came of reading an entry of a directory.
#[derive(Debug)]
pub enum EntryOutcome {
    /// The entry could not be read.
    Unreadable(String),
    /// What the entry is could not be found out.
    Unstatted { path: String, error: String },
    /// The entry, with its length in bytes and the time of its last change.
    Found { name: String, is_directory: bool, len: u64, modified_unix_secs: Option<i64> },
}

/// Why an entry is none.
pub open spec fn entry_fault(outcome: EntryOutcome) -> Option<Seq<char>> {
    match outcome {
        EntryOutcome::Unreadable(error) => Some("failed to read directory entry: "@ + error@),
        EntryOutcome::Unstatted { path, error } => Some(path_fault("stat"@, path@, error@)),
        EntryOutcome::Found { name, is_directory, len, modified_unix_secs } => None,
    }
}

/// Why entries cannot be listed: the first fault among them.
pub open spec fn first_fault(outcomes: Seq<EntryOutcome>) -> Option<Seq<char>>
    decreases outcomes.len(),
{
    if outcomes.len() == 0 {
        None
    } else {
        match first_fault(outcomes.drop_last()) {
            Some(message) => Some(message),
            None => entry_fault(outcomes.last()),
        }
    }
}

/// The entry that was found: a directory has no size.
pub open spec fn entry_of(outcome: EntryOutcome) -> FileEntry
    recommends
        outcome is Found,
{
    FileEntry {
        name: outcome->name,
        is_directory: outcome->is_directory,
        size: if outcome->is_directory {
            0
        } else {
            outcome->len
        },
        modified_unix_secs: outcome->modified_unix_secs,
    }
}

/// The entries that were found.
pub open spec fn entries_of(outcomes: Seq<EntryOutcome>) -> Seq<FileEntry> {
    Seq::new(outcomes.len(), |i: int| entry_of(outcomes[i]))
}

proof fn fault_stays(outcomes: Seq<EntryOutcome>, n: int)
    requires
        0 <= n <= outcomes.len(),
        first_fault(outcomes.take(n)) is Some,
    ensures
        first_fault(outcomes) == first_fault(outcomes.take(n)),
    decreases outcomes.len(),
{
    if n == outcomes.len() {
        assert(outcomes.take(n) =~= outcomes);
    } else {
        assert(outcomes.drop_last().take(n) =~= outcomes.take(n));
        fault_stays(outcomes.drop_last(), n);
    }
}

/// The entries that were found, or the first fault among them.
fn read_entries(outcomes: Vec<EntryOutcome>) -> (result: Result<Vec<FileEntry>, String>)
    ensures
        result is Err == first_fault(outcomes@) is Some,
        result matches Ok(entries) ==> entries@ == entries_of(outcomes@),
        result matches Err(message) ==> first_fault(outcomes@) == Some(message@),
{
    let ghost all = outcomes@;
    let mut rest = outcomes;
    let mut entries: Vec<FileEntry> = Vec::new();
    let ghost mut done: int = 0;
    while rest.len() > 0
        invariant
            all == outcomes@,
            0 <= done,
            done + rest@.len() == all.len(),
            rest@ == all.skip(done),
            first_fault(all.take(done)) is None,
            entries@ == entries_of(all.take(done)),
        decreases rest.len(),
    {
        let ghost left = rest@;
        let outcome = rest.remove(0);
        proof {
            assert(outcome == all[done]);
            assert(left.drop_first() =~= all.skip(done + 1));
            assert(rest@ =~= left.drop_first());
            assert(all.take(done + 1).drop_last() =~= all.take(done));
            assert(all.take(done + 1).last() == outcome);
            assert(first_fault(all.take(done + 1)) == entry_fault(outcome));
            if entry_fault(outcome) is Some {
                fault_stays(all, done + 1);
            }
        }
        match outcome {
            EntryOutcome::Unreadable(error) => {
                return Err(joined("failed to read directory entry: ", error.as_str()));
            },
            EntryOutcome::Unstatted { path, error } => {
                return Err(describe_fault("stat", path.as_str(), error.as_str()));
            },
            EntryOutcome::Found { name, is_directory, len, modified_unix_secs } => {
                let size: u64 = if is_directory {
                    0
                } else {
                    len
                };
                let ghost so_far = entries@;
                entries.push(FileEntry { name, is_directory, size, modified_unix_secs });
                assert(entries@ =~= entries_of(all.take(done + 1))) by {
                    assert(entries@ == so_far.push(entry_of(outcome)));
                    assert forall|i: int| 0 <= i < done implies so_far[i] == entries_of(
                        all.take(done + 1),
                    )[i] by {
                        assert(all.take(done + 1)[i] == all.take(done)[i]);
                    }
                }
            },
        }
        proof {
            done = done + 1;
        }
    }
    assert(all.take(done) =~= all);
    Ok(entries)
}

/// Entries by their names.
pub open spec fn named(entries: Seq<FileEntry>) -> Seq<(Seq<char>, FileEntry)> {
    Seq::new(entries.len(), |i: int| (entries[i].name@, entries[i]))
}

/// Entries in the order of their names.
fn in_name_order(entries: Vec<FileEntry>) -> (list: Vec<FileEntry>)
    ensures
        named(list@) == sorted_by_name(named(entries@)),
{
    let ghost all = named(entries@);
    let mut rest = entries;
    let mut pairs: Vec<(String, FileEntry)> = Vec::new();
    let ghost mut done: int = 0;
    while rest.len() > 0
        invariant
            0 <= done,
            done + rest@.len() == all.len(),
            named(rest@) == all.skip(done),
            keyed(pairs@) == all.take(done),
        decreases rest.len(),
    {
        let ghost before = named(rest@);
        let ghost so_far = keyed(pairs@);
        let entry = rest.remove(0);
        proof {
            assert(before[0] == (entry.name@, entry));
            assert(named(rest@) =~= before.drop_first());
            assert(before.drop_first() =~= all.skip(done + 1));
            done = done + 1;
        }
        pairs.push((entry.name.clone(), entry));
        assert(keyed(pairs@) =~= so_far.push((entry.name@, entry)));
        assert(keyed(pairs@) =~= all.take(done));
    }
    assert(all.take(done) =~= all);
    let sorted = sort_by_name(pairs);
    let ghost goal = keyed(sorted@);
    proof {
        names_stay(all);
    }
    let mut left = sorted;
    let mut list: Vec<FileEntry> = Vec::new();
    let ghost mut taken: int = 0;
    while left.len() > 0
        invariant
            0 <= taken,
            taken + left@.len() == goal.len(),
            keyed(left@) == goal.skip(taken),
            own_names(goal),
            named(list@) == goal.take(taken),
        decreases left.len(),
    {
        let ghost before = keyed(left@);
        let ghost so_far = named(list@);
        let (name, entry) = left.remove(0);
        proof {
            assert(before[0] == (name@, entry));
            assert(goal[taken] == (name@, entry));
            assert(keyed(left@) =~= before.drop_first());
            assert(before.drop_first() =~= goal.skip(taken + 1));
            taken = taken + 1;
        }
        list.push(entry);
        assert(named(list@) =~= so_far.push((entry.name@, entry)));
        assert(named(list@) =~= goal.take(taken));
    }
    assert(goal.take(taken) =~= goal);
    list
}

/// Whether each entry stands under its own name.
pub open spec fn own_names(list: Seq<(Seq<char>, FileEntry)>) -> bool {
    forall|i: int| 0 <= i < list.len() ==> (#[trigger] list[i]).0 == list[i].1.name@
}

proof fn name_stays(list: Seq<(Seq<char>, FileEntry)>, entry: (Seq<char>, FileEntry))
    requires
        own_names(list),
        entry.0 == entry.1.name@,
    ensures
        own_names(crate::order::sorted_in(list, entry)),
    decreases list.len(),
{
    if list.len() > 0 && crate::order::text_before(entry.0, list.last().0) {
        name_stays(list.drop_last(), entry);
        assert(list[list.len() - 1] == list.last());
    }
}

proof fn names_stay(list: Seq<(Seq<char>, FileEntry)>)
    requires
        own_names(list),
    ensures
        own_names(sorted_by_name(list)),
    decreases list.len(),
{
    if list.len() > 0 {
        names_stay(list.drop_last());
        assert(list[list.len() - 1] == list.last());
        name_stays(sorted_by_name(list.drop_last()), list.last());
    }
}

/// An entry as JSON.
pub open spec fn entry_view(entry: FileEntry) -> JsonView {
    no_entries().with("name"@, JsonView::Text(entry.name@)).with(
        "is_directory"@,
        JsonView::Bool(entry.is_directory),
    ).with("size"@, whole(entry.size as int)).with(
        "modified_unix_secs"@,
        match entry.modified_unix_secs {
            Some(seconds) => whole(seconds as int),
            None => JsonView::Null,
        },
    )
}

/// Entries as a JSON array.
pub fn entries_json(entries: &Vec<FileEntry>) -> (json: Json)
    ensures
        json@ == JsonView::Array(Seq::new(entries@.len(), |i: int| entry_view(entries@[i]))),
{
    let ghost goal = Seq::new(entries@.len(), |i: int| entry_view(entries@[i]));
    let mut items: Vec<Json> = Vec::new();
    let mut i: usize = 0;
    while i < entries.len()
        invariant
            i <= entries.len(),
            goal == Seq::new(entries@.len(), |i: int| entry_view(entries@[i])),
            items@.len() == i,
            forall|j: int| 0 <= j < i ==> (#[trigger] items@[j])@ == goal[j],
        decreases entries.len() - i,
    {
        let modified = match entries[i].modified_unix_secs {
            Some(seconds) => Json::signed(seconds),
            None => Json::Null,
        };
        items.push(
            Json::empty().with("name", Json::text(entries[i].name.as_str())).with(
                "is_directory",
                Json::Bool(entries[i].is_directory),
            ).with("size", Json::unsigned(entries[i].size)).with("modified_unix_secs", modified),
        );
        i = i + 1;
    }
    assert(trees(items@) =~= goal);
    Json::array(items)
}

/// What went wrong with a path.
pub open spec fn path_fault(action: Seq<char>, path: Seq<char>, error: Seq<char>) -> Seq<char> {
    "failed to "@ + action + " "@ + path + ": "@ + error
}

/// Says what went wrong with a path.
pub fn describe_fault(action: &str, path: &str, error: &str) -> (message: String)
    ensures
        message@ == path_fault(action@, path@, error@),
{
    let mut message = joined3("failed to ", action, " ");
    message.append(path);
    message.append(": ");
    message.append(error);
    message
}

/// What listing a directory gives: its entries in the order of their names, or why there are none.
/// What was read is either why the directory could not be read, or what came of each entry.
pub fn list_directory(
    path: &str,
    home: &str,
    read: Result<Vec<EntryOutcome>, String>,
) -> (result: Result<Vec<FileEntry>, String>)
    ensures
        match read {
            Err(error) => result matches Err(message) && message@ == path_fault(
                "read directory"@,
                resolved(path@, home@),
                error@,
            ),
            Ok(outcomes) => match first_fault(outcomes@) {
                Some(fault) => result matches Err(message) && message@ == fault,
                None => result matches Ok(list) && named(list@) == sorted_by_name(
                    named(entries_of(outcomes@)),
                ),
            },
        },
{
    match read {
        Err(error) => Err(
            describe_fault("read directory", resolve(path, home).as_str(), error.as_str()),
        ),
        Ok(outcomes) => match read_entries(outcomes) {
            Err(message) => Err(message),
            Ok(entries) => Ok(in_name_order(entries)),
        },
    }
}

/// What reading a file gives: its bytes, or why there are none.
pub fn read_file(path: &str, home: &str, read: Result<Vec<u8>, String>) -> (result: Result<
    Vec<u8>,
    String,
>)
    ensures
        match read {
            Err(error) => result matches Err(message) && message@ == path_fault(
                "read"@,
                resolved(path@, home@),
                error@,
            ),
            Ok(bytes) => result == Ok::<Vec<u8>, String>(bytes),
        },
{
    match read {
        Err(error) => Err(describe_fault("read", resolve(path, home).as_str(), error.as_str())),
        Ok(bytes) => Ok(bytes),
    }
}

/// How a path is deleted.
#[derive(Clone, Copy, Debug, PartialEq, Eq, Structural)]
pub enum Deletion {
    /// With everything below it.
    Directory,
    File,
}

/// How a path is deleted, from whether it is a directory: a directory with everything below it.
pub fn delete_path(path: &str, home: &str, is_directory: Result<bool, String>) -> (result: Result<
    Deletion,
    String,
>)
    ensures
        match is_directory {
            Err(error) => result matches Err(message) && message@ == path_fault(
                "stat"@,
                resolved(path@, home@),
                error@,
            ),
            Ok(true) => result == Ok::<Deletion, String>(Deletion::Directory),
            Ok(false) => result == Ok::<Deletion, String>(Deletion::File),
        },
{
    match is_directory {
        Err(error) => Err(describe_fault("stat", resolve(path, home).as_str(), error.as_str())),
        Ok(directory) => if directory {
            Ok(Deletion::Directory)
        } else {
            Ok(Deletion::File)
        },
    }
}

/// What deleting a path gives.
pub fn finish_deletion(
    deletion: Deletion,
    path: &str,
    home: &str,
    outcome: Result<(), String>,
) -> (result: Result<(), String>)
    ensures
        match outcome {
            Err(error) => result matches Err(message) && message@ == path_fault(
                match deletion {
                    Deletion::Directory => "remove directory"@,
                    Deletion::File => "remove file"@,
                },
                resolved(path@, home@),
                error@,
            ),
            Ok(_) => result is Ok,
        },
{
    match outcome {
        Err(error) => {
            let action = match deletion {
                Deletion::Directory => "remove directory",
                Deletion::File => "remove file",
            };
            Err(describe_fault(action, resolve(path, home).as_str(), error.as_str()))
        },
        Ok(_) => Ok(()),
    }
}

/// A relative path leads to just behind the home directory and one slash.
pub proof fn one_slash_stands_between(path: Seq<char>, directory: Seq<char>)
    requires
        !is_absolute(path),
        directory.len() > 0,
        directory.last() != '/',
    ensures
        resolved(path, directory).len() == directory.len() + 1 + path.len(),
        resolved(path, directory)[directory.len() as int] == '/',
        resolved(path, directory).skip(directory.len() + 1int) == path,
        resolved(path, directory + seq!['/']) == resolved(path, directory),
{
    reveal_strlit("/");
    assert("/"@ =~= seq!['/']);
    assert(resolved(path, directory).skip(directory.len() + 1int) =~= path);
    assert((directory + seq!['/']).last() == '/');
}

/// An absolute path leads to itself, whatever the home directory is.
pub proof fn absolute_paths_stay(rest: Seq<char>, home: Seq<char>)
    ensures
        resolved(seq!['/'] + rest, home) == seq!['/'] + rest,
{
}

/// What was found of an entry is told as it is, but for the size of a directory, which is none.
pub proof fn entries_are_as_found(outcome: EntryOutcome)
    requires
        outcome is Found,
    ensures
        entry_fault(outcome) is None,
        outcome matches EntryOutcome::Found { name, is_directory, len, modified_unix_secs } ==> {
            let entry = entry_of(outcome);
            &&& entry.name == name
            &&& entry.is_directory == is_directory
            &&& entry.modified_unix_secs == modified_unix_secs
            &&& is_directory ==> entry.size == 0
            &&& !is_directory ==> entry.size == len
        },
{
}

/// Entries are listed exactly where each of them was found; else the first that was not says why.
pub proof fn first_faults_count(outcomes: Seq<EntryOutcome>, at: int)
    requires
        0 <= at <= outcomes.len(),
        forall|i: int| 0 <= i < at ==> (#[trigger] outcomes[i]) is Found,
        at < outcomes.len() ==> !(outcomes[at] is Found),
    ensures
        at == outcomes.len() ==> first_fault(outcomes) is None,
        at < outcomes.len() ==> first_fault(outcomes) == entry_fault(outcomes[at]) && first_fault(
            outcomes,
        ) is Some,
    decreases outcomes.len(),
{
    if outcomes.len() > 0 {
        let front = outcomes.drop_last();
        if at < outcomes.len() - 1 {
            first_faults_count(front, at);
        } else {
            assert forall|i: int| 0 <= i < front.len() implies (#[trigger] front[i]) is Found by {
                assert(front[i] == outcomes[i]);
            }
            first_faults_count(front, front.len() as int);
            if at == outcomes.len() {
                assert(outcomes[outcomes.len() - 1] is Found);
            }
        }
    }
}

/// An entry is told by its name, whether it is a directory, its size, and the time of its last
/// change, which is null where it is not known.
pub proof fn entries_are_told(entry: FileEntry)
    ensures
        ({
            let value = entry_view(entry);
            &&& value.string_field("name"@) == Some(entry.name@)
            &&& value.truth_field("is_directory"@) == Some(entry.is_directory)
            &&& value.unsigned_field("size"@) == Some(entry.size as int)
            &&& entry.modified_unix_secs matches Some(seconds) ==> (value.field(
                "modified_unix_secs"@,
            ) matches Some(told) && told.signed() == Some(seconds as int))
            &&& entry.modified_unix_secs is None ==> value.field("modified_unix_secs"@) == Some(
                JsonView::Null,
            )
        }),
{
    broadcast use {with_fields, no_fields};
    entry_names();
}

proof fn entry_names()
    ensures
        "name"@ != "is_directory"@,
        "name"@ != "size"@,
        "name"@ != "modified_unix_secs"@,
        "is_directory"@ != "size"@,
        "is_directory"@ != "modified_unix_secs"@,
        "size"@ != "modified_unix_secs"@,
{
    reveal_strlit("name");
    reveal_strlit("is_directory");
    reveal_strlit("size");
    reveal_strlit("modified_unix_secs");
    assert("name"@.len() == 4);
    assert("is_directory"@.len() == 12);
    assert("size"@.len() == 4);
    assert("modified_unix_secs"@.len() == 18);
    assert("name"@[0] == 'n');
    assert("size"@[0] == 's');
}


/// What went wrong with a path names what was tried and the path, and ends in why it failed.
pub proof fn faults_name_the_path(action: Seq<char>, path: Seq<char>, error: Seq<char>)
    ensures
        begins_with(path_fault(action, path, error), "failed to "@ + action + " "@ + path + ": "@),
        ends_in(path_fault(action, path, error), error),
{
    let front = "failed to "@ + action + " "@ + path + ": "@;
    let message = path_fault(action, path, error);
    assert(message =~= front + error);
    assert(message.subrange(0, front.len() as int) =~= front);
    assert(message.subrange(front.len() as int, message.len() as int) =~= error);
}

/// Entries are written one for one and in order.
pub proof fn listings_tell_every_entry(entries: &Vec<FileEntry>, json: Json)
    requires
        call_ensures(entries_json, (entries,), json),
    ensures
        json@ matches JsonView::Array(items) && items.len() == entries@.len() && forall|i: int|
            0 <= i < items.len() ==> (#[trigger] items[i]).string_field("name"@) == Some(
                entries@[i].name@,
            ) && items[i].truth_field("is_directory"@) == Some(entries@[i].is_directory)
                && items[i].unsigned_field("size"@) == Some(entries@[i].size as int),
{
    assert forall|i: int| 0 <= i < entries@.len() implies (#[trigger] entry_view(
        entries@[i],
    )).string_field("name"@) == Some(entries@[i].name@) && entry_view(entries@[i]).truth_field(
        "is_directory"@,
    ) == Some(entries@[i].is_directory) && entry_view(entries@[i]).unsigned_field("size"@) == Some(
        entries@[i].size as int,
    ) by {
        entries_are_told(entries@[i]);
    }
}

/// A directory all of whose entries were found is listed with just those entries, in the order of
/// their names.
pub proof fn directories_are_listed_by_name(
    path: &str,
    home: &str,
    outcomes: Vec<EntryOutcome>,
    result: Result<Vec<FileEntry>, String>,
)
    requires
        call_ensures(list_directory, (path, home, Ok(outcomes)), result),
        forall|i: int| 0 <= i < outcomes@.len() ==> (#[trigger] outcomes@[i]) is Found,
    ensures
        result matches Ok(list) && list@.len() == outcomes@.len() && named(list@).to_multiset()
            == named(entries_of(outcomes@)).to_multiset() && forall|i: int, j: int|
            0 <= i < j < list@.len() ==> !text_before(
                (#[trigger] list@[j]).name@,
                (#[trigger] list@[i]).name@,
            ),
{
    first_faults_count(outcomes@, outcomes@.len() as int);
    let found = named(entries_of(outcomes@));
    sorted_by_name_never_descends(found);
    let list = result->Ok_0;
    assert(named(list@).len() == list@.len());
    assert forall|i: int, j: int| 0 <= i < j < list@.len() implies !text_before(
        (#[trigger] list@[j]).name@,
        (#[trigger] list@[i]).name@,
    ) by {
        assert(!text_before(named(list@)[j].0, named(list@)[i].0));
    }
}

/// Where a directory, a file or a path could not be got at, the message names where the path leads
/// and ends in why; a file that was read is given as it is, and what is deleted is deleted as what
/// it is.
pub proof fn failures_name_where_the_path_leads(
    path: &str,
    home: &str,
    error: String,
    bytes: Vec<u8>,
    is_directory: bool,
    unlisted: Result<Vec<FileEntry>, String>,
    unread: Result<Vec<u8>, String>,
    read: Result<Vec<u8>, String>,
    unknown: Result<Deletion, String>,
    known: Result<Deletion, String>,
)
    requires
        call_ensures(list_directory, (path, home, Err(error)), unlisted),
        call_ensures(read_file, (path, home, Err(error)), unread),
        call_ensures(read_file, (path, home, Ok(bytes)), read),
        call_ensures(delete_path, (path, home, Err(error)), unknown),
        call_ensures(delete_path, (path, home, Ok(is_directory)), known),
    ensures
        unlisted matches Err(message) && ends_in(
            message@,
            resolved(path@, home@) + ": "@ + error@,
        ),
        unread matches Err(message) && ends_in(message@, resolved(path@, home@) + ": "@ + error@),
        unknown matches Err(message) && ends_in(message@, resolved(path@, home@) + ": "@ + error@),
        read matches Ok(given) && given@ == bytes@,
        known matches Ok(deletion) && (deletion == Deletion::Directory) == is_directory,
{
    fault_ends("read directory"@, resolved(path@, home@), error@);
    fault_ends("read"@, resolved(path@, home@), error@);
    fault_ends("stat"@, resolved(path@, home@), error@);
}

proof fn fault_ends(action: Seq<char>, path: Seq<char>, error: Seq<char>)
    ensures
        ends_in(path_fault(action, path, error), path + ": "@ + error),
{
    let message = path_fault(action, path, error);
    let back = path + ": "@ + error;
    assert(message =~= "failed to "@ + action + " "@ + back);
    assert(message.subrange(message.len() - back.len(), message.len() as int) =~= back);
}

/// A deletion that failed says whether it was of a directory or of a file, and of which; relative
/// paths start from the home directory, or from the root where none is known.
pub proof fn failed_deletions_say_of_what(
    path: &str,
    home: &str,
    error: String,
    directory: Result<(), String>,
    file: Result<(), String>,
    done: Result<(), String>,
    known: String,
    somewhere: String,
    nowhere: String,
)
    requires
        call_ensures(finish_deletion, (Deletion::Directory, path, home, Err(error)), directory),
        call_ensures(finish_deletion, (Deletion::File, path, home, Err(error)), file),
        call_ensures(finish_deletion, (Deletion::File, path, home, Ok(())), done),
        call_ensures(home_directory, (Some(known),), somewhere),
        call_ensures(home_directory, (None,), nowhere),
    ensures
        directory matches Err(message) && begins_with(message@, "failed to remove directory "@)
            && ends_in(message@, resolved(path@, home@) + ": "@ + error@),
        file matches Err(message) && begins_with(message@, "failed to remove file "@) && ends_in(
            message@,
            resolved(path@, home@) + ": "@ + error@,
        ),
        done is Ok,
        somewhere@ == known@,
        nowhere@ == seq!['/'],
{
    reveal_strlit("/");
    assert("/"@ =~= seq!['/']);
    let place = resolved(path@, home@);
    fault_ends("remove directory"@, place, error@);
    fault_ends("remove file"@, place, error@);
    reveal_strlit("failed to ");
    reveal_strlit(" ");
    reveal_strlit("remove directory");
    reveal_strlit("remove file");
    reveal_strlit("failed to remove directory ");
    reveal_strlit("failed to remove file ");
    let a = path_fault("remove directory"@, place, error@);
    let b = path_fault("remove file"@, place, error@);
    assert("failed to "@ + "remove directory"@ + " "@ =~= "failed to remove directory "@);
    assert("failed to "@ + "remove file"@ + " "@ =~= "failed to remove file "@);
    assert(a.subrange(0, "failed to remove directory "@.len() as int)
        =~= "failed to remove directory "@);
    assert(b.subrange(0, "failed to remove file "@.len() as int) =~= "failed to remove file "@);
}

} // verus!
