//! The persisted form of a fragment store: a JSON object from identifier to
//! source text, written by `serde_json` and read back by it.

use crate::store::{
    ascending, contents_of, entries_view, lemma_ascending_unique, lemma_ordered, lemma_upserted,
    ordered, same_entries, upserted, FragmentStore,
};
use crate::text::optional_text;
use vstd::prelude::*;

verus! {

/// `serde_json::Error`, carried from the two calls below to the place where
/// it becomes a `StoreError`.
#[verifier::external_type_specification]
#[verifier::external_body]
pub struct ExJsonError(serde_json::Error);

/// What `serde_json::from_str` makes of `text` when a map from string to
/// string is asked for: the entries of the map that it returns, in the
/// order in which the map yields them, or `None` where it rejects the text.
pub uninterp spec fn json_object(text: Seq<char>) -> Option<Seq<(Seq<char>, Seq<char>)>>;

/// What `serde_json::to_string_pretty` prints for the map that holds the
/// ascending `entries`, or `None` where it fails.
pub uninterp spec fn json_pretty(entries: Seq<(Seq<char>, Seq<char>)>) -> Option<Seq<char>>;

/// Why a store could not be read or written.
#[derive(Clone, Copy, Debug, PartialEq, Eq, Structural)]
pub enum StoreError {
    /// The persisted text is not a JSON object from string to string.
    Corrupt,
    /// The serializer fails on the store, or what it prints does not read
    /// back as the store.
    Unwritable,
}

/// Calls `serde_json::from_str` for a `BTreeMap<String, String>` and hands
/// out the map's entries in the order in which the map yields them.
/// Assumed: whether the text is accepted, and what is made of it, depends
/// on `text` alone.
#[verifier::external_body]
fn parse_object(text: &str) -> (r: Result<Vec<(String, String)>, serde_json::Error>)
    ensures
        match r {
            Ok(v) => json_object(text@) == Some(entries_view(v@)),
            Err(_) => json_object(text@) is None,
        },
{
    let map: std::collections::BTreeMap<String, String> = serde_json::from_str(text)?;
    Ok(map.into_iter().collect())
}

/// Calls `serde_json::to_string_pretty` on the entries as a `BTreeMap`.
/// The entries are ascending, so the map holds each of them. Assumed:
/// whether the call succeeds, and what it prints, depends on the entries
/// alone. Nothing is assumed of which entries it succeeds on.
#[verifier::external_body]
fn print_object(entries: &Vec<(String, String)>) -> (r: Result<String, serde_json::Error>)
    requires
        ascending(entries_view(entries@)),
    ensures
        match r {
            Ok(text) => json_pretty(entries_view(entries@)) == Some(text@),
            Err(_) => json_pretty(entries_view(entries@)) is None,
        },
{
    let map: std::collections::BTreeMap<&str, &str> = entries.iter().map(
        |e| (e.0.as_str(), e.1.as_str()),
    ).collect();
    serde_json::to_string_pretty(&map)
}

/// The mapping that `text` stands for, or `None` where it is corrupt.
pub open spec fn decoded(text: Seq<char>) -> Option<Map<Seq<char>, Seq<char>>> {
    match json_object(text) {
        Some(entries) => Some(contents_of(entries)),
        None => None,
    }
}

/// The mapping that a project's store file stands for: the empty one where
/// the file is absent.
pub open spec fn loaded(existing: Option<Seq<char>>) -> Option<Map<Seq<char>, Seq<char>>> {
    match existing {
        Some(text) => decoded(text),
        None => Some(Map::empty()),
    }
}

/// The store with these entries can be written: the serializer prints a
/// text for them, and that text reads back as them.
pub open spec fn encodes(entries: Seq<(Seq<char>, Seq<char>)>) -> bool {
    json_pretty(entries) matches Some(text) && json_object(text) == Some(entries)
}

/// `text` is the persisted form of the store with these ascending
/// `entries`: it is what the serializer prints for them, and it reads back
/// as them.
pub open spec fn persists(text: Seq<char>, entries: Seq<(Seq<char>, Seq<char>)>) -> bool {
    &&& ascending(entries)
    &&& json_pretty(entries) == Some(text)
    &&& json_object(text) == Some(entries)
}

/// The entries, in ascending order, of the store that a project's store
/// file stands for: none where the file is absent.
pub open spec fn loaded_entries(existing: Option<Seq<char>>) -> Option<
    Seq<(Seq<char>, Seq<char>)>,
> {
    match existing {
        Some(text) => match json_object(text) {
            Some(entries) => Some(ordered(entries)),
            None => None,
        },
        None => Some(Seq::empty()),
    }
}

/// `next` is the text of the store file after `item` was contributed under
/// `id` to a project whose store file was `existing`: the persisted form
/// of the entries of that store with the fragment put in, which loads as
/// the mapping of that store with the fragment put in.
pub open spec fn contributes(
    existing: Option<Seq<char>>,
    id: Seq<char>,
    item: Seq<char>,
    next: Seq<char>,
) -> bool {
    &&& loaded(existing) matches Some(before)
    &&& loaded_entries(existing) matches Some(entries)
    &&& persists(next, upserted(entries, (id, item)))
    &&& decoded(next) == Some(before.insert(id, item))
}

/// The entries that a store file stands for are ascending, and their
/// mapping is the one that the file stands for.
pub proof fn lemma_loaded_entries(existing: Option<Seq<char>>)
    ensures
        loaded(existing) is Some <==> loaded_entries(existing) is Some,
        loaded_entries(existing) matches Some(entries) ==> ascending(entries) && loaded(existing)
            == Some(contents_of(entries)),
{
    match existing {
        Some(text) => match json_object(text) {
            Some(entries) => {
                lemma_ordered(entries);
            },
            None => {},
        },
        None => {
            assert(ascending(Seq::<(Seq<char>, Seq<char>)>::empty()));
        },
    }
}

/// Round trip: a text that persists a store loads as the mapping of that
/// store.
pub proof fn lemma_saved_store_loads(text: Seq<char>, entries: Seq<(Seq<char>, Seq<char>)>)
    requires
        persists(text, entries),
    ensures
        decoded(text) == Some(contents_of(entries)),
        loaded(Some(text)) == Some(contents_of(entries)),
{
}

/// An absent store file stands for the empty mapping, and a contribution
/// to it leaves a store with that one fragment.
pub proof fn lemma_absent_store_is_empty(id: Seq<char>, item: Seq<char>, next: Seq<char>)
    ensures
        loaded(None) == Some(Map::<Seq<char>, Seq<char>>::empty()),
        contributes(None, id, item, next) ==> decoded(next) == Some(
            Map::<Seq<char>, Seq<char>>::empty().insert(id, item),
        ),
{
}

/// No update is lost: two contributions under different identifiers, made
/// one after the other, are both in the store afterwards, and the store
/// file is the same, letter for letter, whichever of them came first.
pub proof fn lemma_no_update_is_lost(
    start: Option<Seq<char>>,
    x: Seq<char>,
    a: Seq<char>,
    y: Seq<char>,
    b: Seq<char>,
    after_x: Seq<char>,
    after_x_then_y: Seq<char>,
    after_y: Seq<char>,
    after_y_then_x: Seq<char>,
)
    requires
        x != y,
        contributes(start, x, a, after_x),
        contributes(Some(after_x), y, b, after_x_then_y),
        contributes(start, y, b, after_y),
        contributes(Some(after_y), x, a, after_y_then_x),
    ensures
        after_x_then_y == after_y_then_x,
        decoded(after_x_then_y) == decoded(after_y_then_x),
        ({
            &&& decoded(after_x_then_y) matches Some(contents)
            &&& contents.dom().contains(x)
            &&& contents[x] == a
            &&& contents.dom().contains(y)
            &&& contents[y] == b
        }),
{
    let before = loaded(start)->0;
    assert(before.insert(x, a).insert(y, b) =~= before.insert(y, b).insert(x, a));
    lemma_loaded_entries(start);
    let at_start = loaded_entries(start)->0;
    let with_x = upserted(at_start, (x, a));
    lemma_upserted(at_start, (x, a));
    lemma_ordered(with_x);
    lemma_ascending_unique(ordered(with_x), with_x);
    let with_y = upserted(at_start, (y, b));
    lemma_upserted(at_start, (y, b));
    lemma_ordered(with_y);
    lemma_ascending_unique(ordered(with_y), with_y);
    let x_then_y = upserted(with_x, (y, b));
    lemma_upserted(with_x, (y, b));
    let y_then_x = upserted(with_y, (x, a));
    lemma_upserted(with_y, (x, a));
    assert(contents_of(x_then_y) =~= contents_of(y_then_x));
    lemma_ascending_unique(x_then_y, y_then_x);
}

/// The last contribution under an identifier is the one that stays: a
/// second contribution under the same identifier leaves the store as if
/// the first had not been made.
pub proof fn lemma_last_write_wins(
    start: Option<Seq<char>>,
    x: Seq<char>,
    first: Seq<char>,
    second: Seq<char>,
    after_first: Seq<char>,
    after_second: Seq<char>,
)
    requires
        contributes(start, x, first, after_first),
        contributes(Some(after_first), x, second, after_second),
    ensures
        contributes(start, x, second, after_second),
{
    let before = loaded(start)->0;
    assert(before.insert(x, first).insert(x, second) =~= before.insert(x, second));
    lemma_loaded_entries(start);
    let at_start = loaded_entries(start)->0;
    let with_first = upserted(at_start, (x, first));
    lemma_upserted(at_start, (x, first));
    lemma_ordered(with_first);
    lemma_ascending_unique(ordered(with_first), with_first);
    let with_both = upserted(with_first, (x, second));
    lemma_upserted(with_first, (x, second));
    let with_second = upserted(at_start, (x, second));
    lemma_upserted(at_start, (x, second));
    assert(contents_of(with_both) =~= contents_of(with_second));
    lemma_ascending_unique(with_both, with_second);
}

/// The store that parsed entries stand for; `None` is a text that the
/// parser rejected.
pub fn store_from_parsed(parsed: Option<Vec<(String, String)>>) -> (r: Result<
    FragmentStore,
    StoreError,
>)
    ensures
        match r {
            Ok(s) => parsed is Some && s@ == contents_of(entries_view(parsed->0@)) && s.entries()
                == ordered(entries_view(parsed->0@)),
            Err(e) => parsed is None && e == StoreError::Corrupt,
        },
{
    match parsed {
        Some(entries) => Ok(FragmentStore::from_entries(&entries)),
        None => Err(StoreError::Corrupt),
    }
}

/// Accepts `text` as the persisted form of `store` if reading it back gave
/// the store's own entries; `read_back` is `None` where the parser rejected
/// the text.
pub fn confirm_encoding(
    store: &FragmentStore,
    text: String,
    read_back: Option<Vec<(String, String)>>,
) -> (r: Result<String, StoreError>)
    ensures
        match r {
            Ok(t) => t@ == text@ && read_back is Some && entries_view(read_back->0@)
                == store.entries(),
            Err(e) => e == StoreError::Unwritable && !(read_back is Some && entries_view(
                read_back->0@,
            ) == store.entries()),
        },
{
    match read_back {
        Some(back) => {
            let own = store.to_entries();
            if same_entries(&back, &own) {
                Ok(text)
            } else {
                Err(StoreError::Unwritable)
            }
        },
        None => Err(StoreError::Unwritable),
    }
}

/// Reads a store from its persisted text. A text that is no JSON object
/// from string to string is corrupt.
pub fn decode_store(text: &str) -> (r: Result<FragmentStore, StoreError>)
    ensures
        match r {
            Ok(s) => decoded(text@) == Some(s@) && loaded_entries(Some(text@)) == Some(s.entries()),
            Err(e) => decoded(text@) is None && e == StoreError::Corrupt,
        },
{
    let parsed = match parse_object(text) {
        Ok(entries) => Some(entries),
        Err(_) => None,
    };
    store_from_parsed(parsed)
}

/// Writes a store as text. The text is handed out only after it has been
/// read back and found to hold the store, so whatever this returns loads
/// as the store that was given. It succeeds on every store that the
/// serializer prints a text for which reads back as the store, and on no
/// other.
pub fn encode_store(store: &FragmentStore) -> (r: Result<String, StoreError>)
    ensures
        r is Ok <==> encodes(store.entries()),
        match r {
            Ok(text) => persists(text@, store.entries()) && decoded(text@) == Some(store@),
            Err(e) => e == StoreError::Unwritable,
        },
{
    let entries = store.to_entries();
    match print_object(&entries) {
        Ok(text) => {
            let read_back = match parse_object(text.as_str()) {
                Ok(back) => Some(back),
                Err(_) => None,
            };
            confirm_encoding(store, text, read_back)
        },
        Err(_) => Err(StoreError::Unwritable),
    }
}

/// Loads a project's store from the text of its store file, or the empty
/// store where the project has no such file yet.
pub fn load(existing: Option<&str>) -> (r: Result<FragmentStore, StoreError>)
    ensures
        match r {
            Ok(s) => loaded(optional_text(existing)) == Some(s@) && loaded_entries(
                optional_text(existing),
            ) == Some(s.entries()),
            Err(e) => loaded(optional_text(existing)) is None && e == StoreError::Corrupt,
        },
        existing is None ==> r is Ok,
{
    match existing {
        Some(text) => decode_store(text),
        None => Ok(FragmentStore::new()),
    }
}

/// Contributes one fragment: loads the store, puts `item` under `id` in
/// place of what was there, and returns the new text of the store file.
pub fn store_kernel_item(existing: Option<&str>, id: &str, item: &str) -> (r: Result<
    String,
    StoreError,
>)
    ensures
        match loaded_entries(optional_text(existing)) {
            Some(entries) => if encodes(upserted(entries, (id@, item@))) {
                r matches Ok(text) && contributes(optional_text(existing), id@, item@, text@)
            } else {
                r == Err::<String, StoreError>(StoreError::Unwritable)
            },
            None => r == Err::<String, StoreError>(StoreError::Corrupt),
        },
{
    proof {
        lemma_loaded_entries(optional_text(existing));
    }
    match load(existing) {
        Ok(mut store) => {
            store.upsert(id, item);
            encode_store(&store)
        },
        Err(e) => Err(e),
    }
}

} // verus!
