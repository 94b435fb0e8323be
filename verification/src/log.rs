//! The request log: an index of entries, pinned ones first, and the content logged under
//! each entry's identifier.
//!
//! The store itself is not reached from here. These functions change the index in memory
//! and say what is to be written; their caller writes it and reports a failure back.

use vstd::prelude::*;
use crate::error::{Error, ErrorView};
use crate::request::Request;
use crate::response::Response;

verus! {

/// One line of the log's index.
#[derive(Debug, Clone, PartialEq, Eq)]
pub struct LogIndexItem {
    /// The identifier under which the content is stored: the 128 bits of a UUID.
    pub id: u128,
    pub method: String,
    pub uri: String,
    /// When the request was sent, in seconds since the Unix epoch.
    pub done_date: i64,
    /// Whether the entry is pinned.
    pub star: bool,
}

/// The mathematical content of a [`LogIndexItem`].
pub ghost struct LogIndexItemView {
    pub id: u128,
    pub method: Seq<char>,
    pub uri: Seq<char>,
    pub done_date: i64,
    pub star: bool,
}

impl View for LogIndexItem {
    type V = LogIndexItemView;

    open spec fn view(&self) -> LogIndexItemView {
        LogIndexItemView {
            id: self.id,
            method: self.method@,
            uri: self.uri@,
            done_date: self.done_date,
            star: self.star,
        }
    }
}

impl LogIndexItemView {
    /// The same entry with its pin set to `star`.
    pub open spec fn with_star(self, star: bool) -> LogIndexItemView {
        LogIndexItemView { star, ..self }
    }
}

/// What is stored under an entry's identifier.
#[derive(Debug, Clone, PartialEq, Eq)]
pub struct LogContent {
    pub request: Request,
    pub response: Response,
}

/// The mathematical content of a [`LogContent`].
pub ghost struct LogContentView {
    pub request: crate::request::RequestView,
    pub response: crate::response::ResponseView,
}

impl View for LogContent {
    type V = LogContentView;

    open spec fn view(&self) -> LogContentView {
        LogContentView { request: self.request@, response: self.response@ }
    }
}

/// An index as a sequence of plain entries.
pub open spec fn index_view(index: Seq<LogIndexItem>) -> Seq<LogIndexItemView> {
    Seq::new(index.len(), |i: int| index[i]@)
}

/// The number of entries at the front of `index` that are pinned without a gap: the place
/// of the first entry that is not pinned, or the length where all are.
pub open spec fn pinned_front(index: Seq<LogIndexItemView>) -> int
    decreases index.len(),
{
    if index.len() == 0 || !index[0].star {
        0
    } else {
        1 + pinned_front(index.drop_first())
    }
}

/// The place of the first entry with identifier `id`, or the length where there is none.
pub open spec fn place_of(index: Seq<LogIndexItemView>, id: u128) -> int
    decreases index.len(),
{
    if index.len() == 0 || index[0].id == id {
        0
    } else {
        1 + place_of(index.drop_first(), id)
    }
}

/// Whether some entry has the identifier `id`.
pub open spec fn has_id(index: Seq<LogIndexItemView>, id: u128) -> bool {
    exists|i: int| 0 <= i < index.len() && #[trigger] index[i].id == id
}

/// The ordering invariant: every pinned entry stands before every entry that is not pinned.
pub open spec fn pinned_first(index: Seq<LogIndexItemView>) -> bool {
    forall|i: int, j: int| 0 <= i < j < index.len() && index[j].star ==> index[i].star
}

/// The index after `entry` was logged: it stands in front of the first entry that is not
/// pinned, and at the end where every entry is pinned.
pub open spec fn saved(index: Seq<LogIndexItemView>, entry: LogIndexItemView) -> Seq<
    LogIndexItemView,
> {
    index.insert(pinned_front(index), entry)
}

/// The index after the pin of the entry at `at` was toggled. An entry that becomes pinned
/// moves to the very front; one that is no longer pinned moves to the very end.
pub open spec fn toggled(index: Seq<LogIndexItemView>, at: int) -> Seq<LogIndexItemView> {
    let entry = index[at];
    let rest = index.remove(at);
    if entry.star {
        rest.push(entry.with_star(false))
    } else {
        rest.insert(0, entry.with_star(true))
    }
}

/// The index without its first entry of identifier `id`; the index itself where there is none.
pub open spec fn withdrawn(index: Seq<LogIndexItemView>, id: u128) -> Seq<LogIndexItemView> {
    if has_id(index, id) {
        index.remove(place_of(index, id))
    } else {
        index
    }
}

/// A new entry and the content to be stored under its identifier.
#[derive(Debug, Clone, PartialEq, Eq)]
pub struct Logged {
    pub entry: LogIndexItem,
    pub content: LogContent,
}

/// The index entry under which a request and its response are logged as `id`.
pub open spec fn entry_for(id: u128, method: Seq<char>, uri: Seq<char>, done_date: i64)
    -> LogIndexItemView {
    LogIndexItemView { id, method, uri, done_date, star: false }
}

/// The text of the identifier `id`, as `uuid` writes it: the key under which the content
/// of the entry is stored.
pub uninterp spec fn uuid_text(id: u128) -> Seq<char>;

/// The identifier that `uuid` reads from `text`, if it reads one.
pub uninterp spec fn uuid_parsed(text: Seq<char>) -> Option<u128>;

/// `uuid::Uuid::now_v7`: a new identifier made from the current time and random bits, so
/// nothing is known of it beforehand.
#[verifier::external_body]
fn fresh_id() -> u128 {
    uuid::Uuid::now_v7().as_u128()
}

/// `uuid::Uuid`'s `to_string`, on the identifier with the bits of `id`: its hyphenated
/// text, named here by `uuid_text`.
#[verifier::external_body]
pub(crate) fn write_id(id: u128) -> (text: String)
    ensures
        text@ == uuid_text(id),
{
    uuid::Uuid::from_u128(id).to_string()
}

/// `uuid::Uuid::parse_str`: the bits of the identifier that `text` spells, or nothing where
/// it spells none, named here by `uuid_parsed`.
#[verifier::external_body]
pub(crate) fn read_id(text: &str) -> (id: Option<u128>)
    ensures
        id == uuid_parsed(text@),
{
    uuid::Uuid::parse_str(text).ok().map(|id| id.as_u128())
}

/// The place of the first entry that is not pinned.
fn find_pinned_front(indexes: &Vec<LogIndexItem>) -> (at: usize)
    ensures
        at == pinned_front(index_view(indexes@)),
        at <= indexes@.len(),
{
    let mut i: usize = 0;
    while i < indexes.len() && indexes[i].star
        invariant
            i <= indexes@.len(),
            forall|k: int| 0 <= k < i ==> index_view(indexes@)[k].star,
        decreases indexes@.len() - i,
    {
        i += 1;
    }
    proof {
        lemma_pinned_front_is(index_view(indexes@), i as int);
    }
    i
}

/// The place of the first entry with identifier `id`.
fn find_place(indexes: &Vec<LogIndexItem>, id: u128) -> (at: usize)
    ensures
        at == place_of(index_view(indexes@), id),
        at <= indexes@.len(),
        at < indexes@.len() <==> has_id(index_view(indexes@), id),
{
    let mut i: usize = 0;
    while i < indexes.len() && indexes[i].id != id
        invariant
            i <= indexes@.len(),
            forall|k: int| 0 <= k < i ==> index_view(indexes@)[k].id != id,
        decreases indexes@.len() - i,
    {
        i += 1;
    }
    proof {
        let index = index_view(indexes@);
        if i == indexes@.len() {
            if has_id(index, id) {
                let k = choose|k: int| 0 <= k < index.len() && #[trigger] index[k].id == id;
                assert(index[k].id != id);
            }
        } else {
            assert(index[i as int].id == id);
        }
        lemma_place_of_is(index, id, i as int);
        lemma_place_of(index, id);
    }
    i
}

/// Logs a request and its response under the identifier `id`: the new entry, not pinned,
/// goes in front of the first entry that is not pinned.
pub fn save_log_as(
    indexes: &mut Vec<LogIndexItem>,
    id: u128,
    request: Request,
    response: Response,
) -> (logged: Logged)
    ensures
        logged.entry@ == entry_for(id, request.method@, request.uri@, response.done_date),
        logged.content.request == request,
        logged.content.response == response,
        index_view(final(indexes)@) == saved(index_view(old(indexes)@), logged.entry@),
{
    let at = find_pinned_front(indexes);
    let listed = LogIndexItem {
        id,
        method: request.method.clone(),
        uri: request.uri.clone(),
        done_date: response.done_date,
        star: false,
    };
    let entry = LogIndexItem {
        id,
        method: request.method.clone(),
        uri: request.uri.clone(),
        done_date: response.done_date,
        star: false,
    };
    indexes.insert(at, listed);
    assert(index_view(indexes@) =~= saved(index_view(old(indexes)@), entry@));
    Logged { entry, content: LogContent { request, response } }
}

/// Logs a request and its response under a new identifier.
pub fn save_log(indexes: &mut Vec<LogIndexItem>, request: Request, response: Response) -> (logged:
    Logged)
    ensures
        logged.entry@ == entry_for(
            logged.entry.id,
            request.method@,
            request.uri@,
            response.done_date,
        ),
        logged.content.request == request,
        logged.content.response == response,
        index_view(final(indexes)@) == saved(index_view(old(indexes)@), logged.entry@),
{
    let id = fresh_id();
    save_log_as(indexes, id, request, response)
}

/// Takes back the logging of `id` after the store refused the write: the entry leaves the
/// index, and the failure to report is returned.
pub fn save_failed(indexes: &mut Vec<LogIndexItem>, id: u128, cause: String) -> (e: Error)
    ensures
        e@ == (ErrorView::Persistence { src: cause@ }),
        index_view(final(indexes)@) == withdrawn(index_view(old(indexes)@), id),
{
    let at = find_place(indexes, id);
    if at < indexes.len() {
        let _ = indexes.remove(at);
        assert(index_view(indexes@) =~= withdrawn(index_view(old(indexes)@), id));
    }
    Error::Persistence { src: cause }
}

/// Toggles the pin of the first entry with identifier `id` and moves the entry: to the
/// very front where it becomes pinned, to the very end where it no longer is.
pub fn star(indexes: &mut Vec<LogIndexItem>, id: u128) -> (r: Result<(), Error>)
    ensures
        match r {
            Ok(_) => has_id(index_view(old(indexes)@), id) && index_view(final(indexes)@)
                == toggled(index_view(old(indexes)@), place_of(index_view(old(indexes)@), id)),
            Err(e) => !has_id(index_view(old(indexes)@), id) && e@ == ErrorView::NotFound
                && final(indexes)@ == old(indexes)@,
        },
{
    let at = find_place(indexes, id);
    if at >= indexes.len() {
        return Err(Error::NotFound);
    }
    let ghost before = index_view(indexes@);
    let found = indexes.remove(at);
    assert(index_view(indexes@) =~= before.remove(at as int));
    assert(found@ == before[at as int]);
    if found.star {
        let moved = LogIndexItem {
            id: found.id,
            method: found.method,
            uri: found.uri,
            done_date: found.done_date,
            star: false,
        };
        indexes.push(moved);
        assert(index_view(indexes@) =~= toggled(before, at as int));
    } else {
        let moved = LogIndexItem {
            id: found.id,
            method: found.method,
            uri: found.uri,
            done_date: found.done_date,
            star: true,
        };
        indexes.insert(0, moved);
        assert(index_view(indexes@) =~= toggled(before, at as int));
    }
    Ok(())
}

/// `pinned_front` is the one place with only pinned entries before it and none at it.
pub proof fn lemma_pinned_front(index: Seq<LogIndexItemView>)
    ensures
        0 <= pinned_front(index) <= index.len(),
        forall|i: int| 0 <= i < pinned_front(index) ==> index[i].star,
        pinned_front(index) < index.len() ==> !index[pinned_front(index)].star,
    decreases index.len(),
{
    if index.len() > 0 && index[0].star {
        let rest = index.drop_first();
        lemma_pinned_front(rest);
        assert forall|i: int| 0 <= i < pinned_front(index) implies index[i].star by {
            if i > 0 {
                assert(index[i] == rest[i - 1]);
            }
        }
        if pinned_front(index) < index.len() {
            assert(index[pinned_front(index)] == rest[pinned_front(rest)]);
        }
    }
}

/// A place with only pinned entries before it and none at it is `pinned_front`.
pub proof fn lemma_pinned_front_is(index: Seq<LogIndexItemView>, at: int)
    requires
        0 <= at <= index.len(),
        forall|i: int| 0 <= i < at ==> index[i].star,
        at < index.len() ==> !index[at].star,
    ensures
        pinned_front(index) == at,
{
    lemma_pinned_front(index);
    let p = pinned_front(index);
    if p < at {
        assert(index[p].star);
    } else if at < p {
        assert(index[at].star);
    }
}

/// `place_of` is the first place of the identifier, and the length where it does not occur.
pub proof fn lemma_place_of(index: Seq<LogIndexItemView>, id: u128)
    ensures
        0 <= place_of(index, id) <= index.len(),
        forall|i: int| 0 <= i < place_of(index, id) ==> index[i].id != id,
        place_of(index, id) < index.len() ==> index[place_of(index, id)].id == id,
        has_id(index, id) <==> place_of(index, id) < index.len(),
    decreases index.len(),
{
    if index.len() > 0 && index[0].id != id {
        let rest = index.drop_first();
        lemma_place_of(rest, id);
        assert forall|i: int| 0 <= i < place_of(index, id) implies index[i].id != id by {
            if i > 0 {
                assert(index[i] == rest[i - 1]);
            }
        }
        if place_of(index, id) < index.len() {
            assert(index[place_of(index, id)] == rest[place_of(rest, id)]);
        }
        if has_id(index, id) {
            let k = choose|k: int| 0 <= k < index.len() && #[trigger] index[k].id == id;
            assert(rest[k - 1].id == id);
        }
    }
}

/// The first place at which `id` occurs is `place_of`.
pub proof fn lemma_place_of_is(index: Seq<LogIndexItemView>, id: u128, at: int)
    requires
        0 <= at <= index.len(),
        forall|i: int| 0 <= i < at ==> index[i].id != id,
        at < index.len() ==> index[at].id == id,
        at == index.len() ==> !has_id(index, id),
    ensures
        place_of(index, id) == at,
{
    lemma_place_of(index, id);
    let p = place_of(index, id);
    if p < at {
        assert(index[p].id == id);
    } else if at < p {
        assert(index[at].id != id);
    }
}

/// Logging keeps the ordering invariant, and in an index that has it the new entry stands
/// first among those that are not pinned.
pub proof fn lemma_saved_keeps_pinned_first(index: Seq<LogIndexItemView>, entry: LogIndexItemView)
    requires
        pinned_first(index),
        !entry.star,
    ensures
        pinned_first(saved(index, entry)),
        saved(index, entry)[pinned_front(index)] == entry,
        forall|i: int| 0 <= i < pinned_front(index) ==> saved(index, entry)[i].star,
        forall|i: int|
            pinned_front(index) <= i < saved(index, entry).len() ==> !saved(index, entry)[i].star,
{
    lemma_pinned_front(index);
    let p = pinned_front(index);
    let after = saved(index, entry);
    assert forall|i: int| p <= i < after.len() implies !after[i].star by {
        if i > p {
            assert(after[i] == index[i - 1]);
            if index[i - 1].star {
                if i - 1 > p {
                    assert(index[p].star);
                }
            }
        }
    }
    assert forall|i: int| 0 <= i < p implies after[i].star by {
        assert(after[i] == index[i]);
    }
}

/// Logging drops nothing: the entries that were there stay, in their order, around the new one.
pub proof fn lemma_saved_keeps_entries(index: Seq<LogIndexItemView>, entry: LogIndexItemView)
    ensures
        saved(index, entry).len() == index.len() + 1,
        saved(index, entry).remove(pinned_front(index)) == index,
        has_id(saved(index, entry), entry.id),
        forall|id: u128| has_id(index, id) ==> has_id(saved(index, entry), id),
{
    lemma_pinned_front(index);
    let p = pinned_front(index);
    let after = saved(index, entry);
    assert(after.remove(p) =~= index);
    assert(after[p].id == entry.id);
    assert forall|id: u128| has_id(index, id) implies has_id(after, id) by {
        let k = choose|k: int| 0 <= k < index.len() && #[trigger] index[k].id == id;
        if k < p {
            assert(after[k].id == id);
        } else {
            assert(after[k + 1].id == id);
        }
    }
}

/// Of two entries logged one after the other, from whatever index, neither is lost.
pub proof fn lemma_two_saves_keep_both(
    index: Seq<LogIndexItemView>,
    first: LogIndexItemView,
    second: LogIndexItemView,
)
    ensures
        has_id(saved(saved(index, first), second), first.id),
        has_id(saved(saved(index, first), second), second.id),
        saved(saved(index, first), second).len() == index.len() + 2,
{
    lemma_saved_keeps_entries(index, first);
    lemma_saved_keeps_entries(saved(index, first), second);
}

/// Withdrawing an entry that was just logged under a new identifier gives the index back.
pub proof fn lemma_withdrawn_undoes_saved(index: Seq<LogIndexItemView>, entry: LogIndexItemView)
    requires
        !has_id(index, entry.id),
    ensures
        withdrawn(saved(index, entry), entry.id) == index,
{
    lemma_pinned_front(index);
    lemma_saved_keeps_entries(index, entry);
    let p = pinned_front(index);
    let after = saved(index, entry);
    assert forall|i: int| 0 <= i < p implies after[i].id != entry.id by {
        assert(after[i] == index[i]);
        assert(index[i].id != entry.id);
    }
    lemma_place_of_is(after, entry.id, p);
}

/// Toggling a pin keeps the ordering invariant and the number of entries.
pub proof fn lemma_toggled_keeps_pinned_first(index: Seq<LogIndexItemView>, at: int)
    requires
        pinned_first(index),
        0 <= at < index.len(),
    ensures
        pinned_first(toggled(index, at)),
        toggled(index, at).len() == index.len(),
{
    let after = toggled(index, at);
    let rest = index.remove(at);
    assert forall|i: int, j: int| 0 <= i < j < rest.len() && rest[j].star implies rest[i].star by {
        let a = if i < at { i } else { i + 1 };
        let b = if j < at { j } else { j + 1 };
        assert(rest[i] == index[a]);
        assert(rest[j] == index[b]);
    }
    if index[at].star {
        assert forall|i: int, j: int|
            0 <= i < j < after.len() && after[j].star implies after[i].star by {
            assert(j < rest.len());
            assert(after[j] == rest[j]);
            assert(after[i] == rest[i]);
        }
    } else {
        assert forall|i: int, j: int|
            0 <= i < j < after.len() && after[j].star implies after[i].star by {
            if i > 0 {
                assert(after[j] == rest[j - 1]);
                assert(after[i] == rest[i - 1]);
            }
        }
    }
}

/// An entry that becomes pinned stands at the very front; one that is no longer pinned
/// stands at the very end.
pub proof fn lemma_toggled_moves_entry(index: Seq<LogIndexItemView>, at: int)
    requires
        0 <= at < index.len(),
    ensures
        !index[at].star ==> toggled(index, at)[0] == index[at].with_star(true),
        index[at].star ==> toggled(index, at).last() == index[at].with_star(false),
        forall|id: u128| has_id(index, id) <==> has_id(toggled(index, at), id),
{
    let after = toggled(index, at);
    let rest = index.remove(at);
    assert forall|id: u128| has_id(index, id) <==> has_id(after, id) by {
        if has_id(index, id) {
            let k = choose|k: int| 0 <= k < index.len() && #[trigger] index[k].id == id;
            if index[at].star {
                if k < at {
                    assert(after[k].id == id);
                } else if k == at {
                    assert(after[after.len() - 1].id == id);
                } else {
                    assert(after[k - 1].id == id);
                }
            } else {
                if k < at {
                    assert(after[k + 1].id == id);
                } else if k == at {
                    assert(after[0].id == id);
                } else {
                    assert(after[k].id == id);
                }
            }
        }
        if has_id(after, id) {
            let k = choose|k: int| 0 <= k < after.len() && #[trigger] after[k].id == id;
            if index[at].star {
                if k == after.len() - 1 {
                    assert(index[at].id == id);
                } else if k < at {
                    assert(index[k].id == id);
                } else {
                    assert(index[k + 1].id == id);
                }
            } else {
                if k == 0 {
                    assert(index[at].id == id);
                } else if k - 1 < at {
                    assert(index[k - 1].id == id);
                } else {
                    assert(index[k].id == id);
                }
            }
        }
    }
}

} // verus!
