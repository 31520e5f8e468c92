//! Deletion ledger: an append-only record of `(channel_id, message_id)`
//! pairs for messages confirmed gone from the live service, persisted as one
//! JSON document with a single `deleted_messages` key. Loading is permissive
//! about a missing document (first-run state) and strict about a malformed
//! one. Appending never deduplicates.
use crate::json::{json_to_text, json_text, obj_lookup, parse_json, parsed_json, spec_obj_lookup, Json};
use crate::EngineError;
use vstd::prelude::*;
use vstd::string::*;

verus! {

/// One confirmed remote deletion.
pub struct LedgerEntry {
    pub channel_id: String,
    pub message_id: String,
}

/// The entry a well-formed ledger element describes, if any: an object with
/// string `channel_id` and `message_id` fields.
pub open spec fn spec_entry_of_json(j: Json) -> Option<LedgerEntry> {
    match j {
        Json::Obj(f) => match (
            spec_obj_lookup(f@, "channel_id"@),
            spec_obj_lookup(f@, "message_id"@),
        ) {
            (Some(Json::Str(c)), Some(Json::Str(m))) => Some(
                LedgerEntry { channel_id: c, message_id: m },
            ),
            _ => None,
        },
        _ => None,
    }
}

/// The entries of a ledger array, or `None` as soon as one element is not
/// entry-shaped.
pub open spec fn spec_entries_of_items(items: Seq<Json>) -> Option<Seq<LedgerEntry>>
    decreases items.len(),
{
    if items.len() == 0 {
        Some(Seq::empty())
    } else {
        match (spec_entries_of_items(items.drop_last()), spec_entry_of_json(items.last())) {
            (Some(rest), Some(e)) => Some(rest.push(e)),
            _ => None,
        }
    }
}

/// The entries of a whole ledger document value: one top-level
/// `deleted_messages` key holding an array of entries.
pub open spec fn spec_entries_of_json(j: Json) -> Option<Seq<LedgerEntry>> {
    match j {
        Json::Obj(fields) => match spec_obj_lookup(fields@, "deleted_messages"@) {
            Some(Json::Arr(items)) => spec_entries_of_items(items@),
            _ => None,
        },
        _ => None,
    }
}

/// A caller-side view of an optional document text.
pub open spec fn doc_view(doc: Option<&str>) -> Option<Seq<char>> {
    match doc {
        Some(s) => Some(s@),
        None => None,
    }
}

/// What loading the ledger yields: no document means a fresh empty ledger;
/// a document that exists but fails to parse is corruption, never silently
/// dropped deletion history.
pub open spec fn spec_ledger_of_doc(doc: Option<Seq<char>>) -> Result<
    Seq<LedgerEntry>,
    EngineError,
> {
    match doc {
        None => Ok(Seq::empty()),
        Some(t) => match parsed_json(t) {
            None => Err(EngineError::LedgerCorrupt),
            Some(j) => match spec_entries_of_json(j) {
                None => Err(EngineError::LedgerCorrupt),
                Some(es) => Ok(es),
            },
        },
    }
}

fn entry_of_json(j: &Json) -> (r: Option<LedgerEntry>)
    ensures
        r == spec_entry_of_json(*j),
{
    match j {
        Json::Obj(f) => {
            let key_c = String::from_str("channel_id");
            let key_m = String::from_str("message_id");
            match (obj_lookup(f, &key_c), obj_lookup(f, &key_m)) {
                (Some(Json::Str(c)), Some(Json::Str(m))) => Some(
                    LedgerEntry { channel_id: c.clone(), message_id: m.clone() },
                ),
                _ => None,
            }
        },
        _ => None,
    }
}

proof fn lemma_entries_bad_item(items: Seq<Json>, i: int)
    requires
        0 <= i < items.len(),
        spec_entry_of_json(items[i]) is None,
    ensures
        spec_entries_of_items(items) is None,
    decreases items.len(),
{
    if i < items.len() - 1 {
        lemma_entries_bad_item(items.drop_last(), i);
    }
}

/// Reads the entry list out of a parsed ledger document value.
pub fn entries_of_json(j: &Json) -> (r: Option<Vec<LedgerEntry>>)
    ensures
        match r {
            Some(v) => spec_entries_of_json(*j) == Some(v@),
            None => spec_entries_of_json(*j) is None,
        },
{
    match j {
        Json::Obj(fields) => {
            let key = String::from_str("deleted_messages");
            match obj_lookup(fields, &key) {
                Some(jv @ Json::Arr(items)) => {
                    proof {
                        assert(spec_obj_lookup(fields@, "deleted_messages"@) == Some(*jv));
                    }
                    let mut out: Vec<LedgerEntry> = Vec::new();
                    let mut i: usize = 0;
                    while i < items.len()
                        invariant
                            0 <= i <= items@.len(),
                            spec_entries_of_items(items@.take(i as int)) == Some(out@),
                            spec_entries_of_json(*j) == spec_entries_of_items(items@),
                        decreases items@.len() - i,
                    {
                        match entry_of_json(&items[i]) {
                            Some(e) => {
                                out.push(e);
                                proof {
                                    assert(items@.take(i as int + 1).drop_last() =~= items@.take(
                                        i as int,
                                    ));
                                    assert(items@.take(i as int + 1).last() == items@[i as int]);
                                }
                            },
                            None => {
                                proof {
                                    lemma_entries_bad_item(items@, i as int);
                                }
                                return None;
                            },
                        }
                        i += 1;
                    }
                    proof {
                        assert(items@.take(items@.len() as int) =~= items@);
                    }
                    Some(out)
                },
                _ => None,
            }
        },
        _ => None,
    }
}

/// Loads the ledger from its document text, `None` standing for a document
/// that does not exist yet.
pub fn load_ledger(doc: Option<&str>) -> (r: Result<Vec<LedgerEntry>, EngineError>)
    ensures
        match r {
            Ok(v) => spec_ledger_of_doc(doc_view(doc)) == Ok::<_, EngineError>(v@),
            Err(e) => spec_ledger_of_doc(doc_view(doc)) == Err::<Seq<LedgerEntry>, _>(e),
        },
{
    match doc {
        None => Ok(Vec::new()),
        Some(s) => match parse_json(s) {
            None => Err(EngineError::LedgerCorrupt),
            Some(j) => match entries_of_json(&j) {
                Some(v) => Ok(v),
                None => Err(EngineError::LedgerCorrupt),
            },
        },
    }
}

/// The message ids of a ledger snapshot, every entry's channel ignored.
pub open spec fn spec_message_ids(entries: Seq<LedgerEntry>) -> Seq<String> {
    entries.map_values(|e: LedgerEntry| e.message_id)
}

/// Collects the message ids the filter consults, from all entries regardless
/// of channel.
pub fn message_ids(entries: &Vec<LedgerEntry>) -> (r: Vec<String>)
    ensures
        r@ == spec_message_ids(entries@),
{
    let mut out: Vec<String> = Vec::new();
    let mut i: usize = 0;
    while i < entries.len()
        invariant
            0 <= i <= entries@.len(),
            out@ == spec_message_ids(entries@.take(i as int)),
        decreases entries@.len() - i,
    {
        out.push(entries[i].message_id.clone());
        proof {
            assert(spec_message_ids(entries@.take(i as int + 1)) =~= spec_message_ids(
                entries@.take(i as int),
            ).push(entries@[i as int].message_id));
        }
        i += 1;
    }
    proof {
        assert(entries@.take(entries@.len() as int) =~= entries@);
    }
    out
}

/// Whether an id is recorded as deleted.
pub open spec fn spec_id_deleted(ids: Seq<String>, id: Seq<char>) -> bool {
    exists|k: int| 0 <= k < ids.len() && ids[k]@ == id
}

/// Membership test against the ledger's id snapshot.
pub fn id_deleted(ids: &Vec<String>, id: &String) -> (r: bool)
    ensures
        r == spec_id_deleted(ids@, id@),
{
    let mut i: usize = 0;
    while i < ids.len()
        invariant
            0 <= i <= ids@.len(),
            forall|k: int| 0 <= k < i ==> ids@[k]@ != id@,
        decreases ids@.len() - i,
    {
        if ids[i] == *id {
            proof {
                assert(0 <= i < ids@.len() && ids@[i as int]@ == id@);
            }
            return true;
        }
        i += 1;
    }
    false
}

/// The filter's scope is global by message id: any ledger entry makes its
/// message id deleted everywhere, whatever channel the entry names.
pub proof fn lemma_deletion_scope_global(entries: Seq<LedgerEntry>, i: int)
    requires
        0 <= i < entries.len(),
    ensures
        spec_id_deleted(spec_message_ids(entries), entries[i].message_id@),
{
    assert(spec_message_ids(entries)[i]@ == entries[i].message_id@);
}

/// A duplicate entry makes no difference to the filter: the ledger grows,
/// the set of deleted ids does not.
pub proof fn lemma_duplicate_entry_same_ids(entries: Seq<LedgerEntry>, e: LedgerEntry, id: Seq<char>)
    ensures
        spec_id_deleted(spec_message_ids(entries.push(e).push(e)), id) == spec_id_deleted(
            spec_message_ids(entries.push(e)),
            id,
        ),
{
    let once = spec_message_ids(entries.push(e));
    let twice = spec_message_ids(entries.push(e).push(e));
    assert(forall|k: int| 0 <= k < once.len() ==> once[k] == #[trigger] twice[k]);
    if spec_id_deleted(twice, id) {
        let k = choose|k: int| 0 <= k < twice.len() && twice[k]@ == id;
        if k < once.len() {
            assert(once[k]@ == id);
        } else {
            assert(twice[k] == e.message_id);
            assert(once[once.len() - 1] == e.message_id);
        }
    }
    if spec_id_deleted(once, id) {
        let k = choose|k: int| 0 <= k < once.len() && once[k]@ == id;
        assert(twice[k]@ == id);
    }
}

/// The exact shape of the ledger element written for one entry.
pub open spec fn is_entry_json(j: Json, e: LedgerEntry) -> bool {
    &&& j matches Json::Obj(f)
    &&& f@.len() == 2
    &&& f@[0].0@ == "channel_id"@
    &&& f@[0].1 matches Json::Str(c) && c == e.channel_id
    &&& f@[1].0@ == "message_id"@
    &&& f@[1].1 matches Json::Str(m) && m == e.message_id
}

/// The exact shape of the ledger document value written for a snapshot: one
/// `deleted_messages` key over one element per entry, in order.
pub open spec fn is_ledger_json(j: Json, entries: Seq<LedgerEntry>) -> bool {
    &&& j matches Json::Obj(fields)
    &&& fields@.len() == 1
    &&& fields@[0].0@ == "deleted_messages"@
    &&& fields@[0].1 matches Json::Arr(items)
    &&& items@.len() == entries.len()
    &&& forall|i: int| 0 <= i < entries.len() ==> is_entry_json(#[trigger] items@[i], entries[i])
}

fn entry_json(e: &LedgerEntry) -> (r: Json)
    ensures
        is_entry_json(r, *e),
{
    let mut f: Vec<(String, Json)> = Vec::new();
    f.push((String::from_str("channel_id"), Json::Str(e.channel_id.clone())));
    f.push((String::from_str("message_id"), Json::Str(e.message_id.clone())));
    Json::Obj(f)
}

/// Builds the ledger document value for a snapshot.
pub fn ledger_json(entries: &Vec<LedgerEntry>) -> (r: Json)
    ensures
        is_ledger_json(r, entries@),
{
    let mut items: Vec<Json> = Vec::new();
    let mut i: usize = 0;
    while i < entries.len()
        invariant
            0 <= i <= entries@.len(),
            items@.len() == i,
            forall|k: int| 0 <= k < i ==> is_entry_json(#[trigger] items@[k], entries@[k]),
        decreases entries@.len() - i,
    {
        items.push(entry_json(&entries[i]));
        i += 1;
    }
    let mut fields: Vec<(String, Json)> = Vec::new();
    fields.push((String::from_str("deleted_messages"), Json::Arr(items)));
    Json::Obj(fields)
}

proof fn lemma_entry_json_roundtrip(j: Json, e: LedgerEntry)
    requires
        is_entry_json(j, e),
    ensures
        spec_entry_of_json(j) == Some(e),
{
    reveal_strlit("channel_id");
    reveal_strlit("message_id");
    let f = j->Obj_0;
    assert("channel_id"@[0] == 'c');
    assert("message_id"@[0] == 'm');
    assert("channel_id"@ != "message_id"@);
    assert(spec_obj_lookup(f@, "channel_id"@) == Some(f@[0].1));
    assert(f@.drop_first()[0] == f@[1]);
    assert(f@.drop_first().len() == 1);
    assert(spec_obj_lookup(f@, "message_id"@) == spec_obj_lookup(f@.drop_first(), "message_id"@));
    assert(spec_obj_lookup(f@.drop_first(), "message_id"@) == Some(f@.drop_first()[0].1));
    assert(spec_obj_lookup(f@, "message_id"@) == Some(f@[1].1));
}

proof fn lemma_items_roundtrip(items: Seq<Json>, entries: Seq<LedgerEntry>)
    requires
        items.len() == entries.len(),
        forall|i: int| 0 <= i < entries.len() ==> is_entry_json(#[trigger] items[i], entries[i]),
    ensures
        spec_entries_of_items(items) == Some(entries),
    decreases items.len(),
{
    if items.len() == 0 {
        assert(entries =~= Seq::<LedgerEntry>::empty());
    } else {
        lemma_items_roundtrip(items.drop_last(), entries.drop_last());
        lemma_entry_json_roundtrip(items.last(), entries.last());
        assert(entries.drop_last().push(entries.last()) =~= entries);
    }
}

/// Round trip: reading a ledger document value written for a snapshot yields
/// exactly that snapshot, duplicates and order included.
pub proof fn lemma_ledger_json_roundtrip(j: Json, entries: Seq<LedgerEntry>)
    requires
        is_ledger_json(j, entries),
    ensures
        spec_entries_of_json(j) == Some(entries),
{
    let fields = j->Obj_0;
    assert(spec_obj_lookup(fields@, "deleted_messages"@) == Some(fields@[0].1));
    let items = fields@[0].1->Arr_0;
    lemma_items_roundtrip(items@, entries);
}

/// Renders the replacement document text for a snapshot.
pub fn ledger_doc_text(entries: &Vec<LedgerEntry>) -> (r: String)
    ensures
        exists|j: Json| #[trigger] is_ledger_json(j, entries@) && r@ == json_text(j),
{
    let j = ledger_json(entries);
    let t = json_to_text(&j);
    proof {
        assert(is_ledger_json(j, entries@) && t@ == json_text(j));
    }
    t
}

/// One confirmed remote deletion, applied to the ledger: load the current
/// document, append the pair without deduplication, render the replacement
/// document. A corrupt existing document stops the append.
pub fn record_deletion(doc: Option<&str>, channel_id: &String, message_id: &String) -> (r: Result<
    String,
    EngineError,
>)
    ensures
        r is Ok ==> spec_ledger_of_doc(doc_view(doc)) is Ok,
        r matches Ok(t) ==> exists|j: Json|
            #[trigger] is_ledger_json(
                j,
                spec_ledger_of_doc(doc_view(doc))->Ok_0.push(
                    LedgerEntry { channel_id: *channel_id, message_id: *message_id },
                ),
            ) && t@ == json_text(j),
        r matches Err(e) ==> spec_ledger_of_doc(doc_view(doc)) == Err::<Seq<LedgerEntry>, _>(e),
{
    match load_ledger(doc) {
        Err(e) => Err(e),
        Ok(mut entries) => {
            let ghost es = entries@;
            let c = channel_id.clone();
            let m = message_id.clone();
            entries.push(LedgerEntry { channel_id: c, message_id: m });
            let t = ledger_doc_text(&entries);
            proof {
                let e = LedgerEntry { channel_id: *channel_id, message_id: *message_id };
                assert(entries@ == es.push(e));
                assert(spec_ledger_of_doc(doc_view(doc))->Ok_0 == es);
                let j = choose|j: Json| is_ledger_json(j, entries@) && t@ == json_text(j);
                assert(is_ledger_json(j, spec_ledger_of_doc(doc_view(doc))->Ok_0.push(e)) && t@
                    == json_text(j));
            }
            Ok(t)
        },
    }
}

} // verus!
