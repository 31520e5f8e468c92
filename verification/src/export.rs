//! Export reading: turns one channel directory's two parsed documents into
//! typed records, filters messages against the ledger snapshot, and routes
//! each channel into its conversation shape.
use crate::ident::{canon_id, spec_canon_id};
use crate::json::{obj_lookup, spec_obj_lookup, Json};
use crate::ledger::{id_deleted, spec_id_deleted};
use crate::EngineError;
use vstd::prelude::*;
use vstd::string::*;

verus! {

/// The conversation shapes a channel descriptor can announce.
#[derive(Clone, Copy, Debug, PartialEq, Eq, Structural)]
pub enum ChannelKind {
    DirectMessage,
    GuildText,
    Other,
}

/// A loaded channel header.
pub struct Channel {
    pub id: String,
    pub kind: ChannelKind,
    pub recipients: Option<Vec<String>>,
}

/// One message record, read once and never mutated.
pub struct Message {
    pub id: String,
    pub timestamp: String,
    pub contents: String,
    pub attachments: Option<String>,
}

/// A direct-message conversation as it appears in the archive.
pub struct DmChat {
    pub id: String,
    pub recipient_id: String,
    pub recipient_name: String,
    pub messages: Vec<Message>,
}

/// A guild-text conversation as it appears in the archive.
pub struct GuildChat {
    pub id: String,
    pub messages: Vec<Message>,
}

/// The assembled archive.
pub struct DiscordBackup {
    pub dms: Vec<DmChat>,
    pub guilds: Vec<GuildChat>,
}

fn clone_opt_string(o: &Option<String>) -> (r: Option<String>)
    ensures
        r == *o,
{
    match o {
        None => None,
        Some(s) => Some(s.clone()),
    }
}

impl Clone for Message {
    fn clone(&self) -> (r: Self)
        ensures
            r == *self,
    {
        Message {
            id: self.id.clone(),
            timestamp: self.timestamp.clone(),
            contents: self.contents.clone(),
            attachments: clone_opt_string(&self.attachments),
        }
    }
}

/// The kind a channel descriptor's `type` string announces.
pub open spec fn spec_kind_of(t: Seq<char>) -> ChannelKind {
    if t == "DM"@ {
        ChannelKind::DirectMessage
    } else if t == "GUILD_TEXT"@ {
        ChannelKind::GuildText
    } else {
        ChannelKind::Other
    }
}

/// Shape of a channel descriptor's optional `recipients` field.
pub open spec fn recipients_field_ok(f: Option<Json>) -> bool {
    match f {
        None => true,
        Some(Json::Null) => true,
        Some(Json::Arr(items)) => forall|i: int| 0 <= i < items@.len() ==> items@[i] is Str,
        Some(_) => false,
    }
}

/// Relation between the `recipients` field and the loaded recipient list.
pub open spec fn recipients_match(f: Option<Json>, rs: Option<Vec<String>>) -> bool {
    match f {
        None => rs is None,
        Some(Json::Null) => rs is None,
        Some(Json::Arr(items)) => rs matches Some(v) && v@.len() == items@.len() && forall|i: int|
            0 <= i < items@.len() ==> ((#[trigger] items@[i]) matches Json::Str(s) && v@[i] == s),
        Some(_) => false,
    }
}

/// A structurally valid channel descriptor: a normalizable `id`, a string
/// `type`, and recipients that are absent, null, or all strings.
pub open spec fn channel_json_ok(j: Json) -> bool {
    &&& j matches Json::Obj(fields)
    &&& spec_obj_lookup(fields@, "id"@) matches Some(idj) && spec_canon_id(idj) is Some
    &&& spec_obj_lookup(fields@, "type"@) matches Some(tj) && tj is Str
    &&& recipients_field_ok(spec_obj_lookup(fields@, "recipients"@))
}

/// The channel record a valid descriptor loads to.
pub open spec fn is_channel_of_json(c: Channel, j: Json) -> bool {
    &&& j matches Json::Obj(fields)
    &&& spec_obj_lookup(fields@, "id"@) matches Some(idj) && spec_canon_id(idj) == Some(c.id@)
    &&& spec_obj_lookup(fields@, "type"@) matches Some(tj) && tj matches Json::Str(t) && c.kind
        == spec_kind_of(t@)
    &&& recipients_match(spec_obj_lookup(fields@, "recipients"@), c.recipients)
}

fn strings_of_items(items: &Vec<Json>) -> (r: Option<Vec<String>>)
    ensures
        match r {
            Some(v) => v@.len() == items@.len() && forall|i: int|
                0 <= i < items@.len() ==> ((#[trigger] items@[i]) matches Json::Str(s) && v@[i]
                    == s),
            None => !(forall|i: int| 0 <= i < items@.len() ==> items@[i] is Str),
        },
{
    let mut out: Vec<String> = Vec::new();
    let mut i: usize = 0;
    while i < items.len()
        invariant
            0 <= i <= items@.len(),
            out@.len() == i,
            forall|k: int|
                0 <= k < i ==> ((#[trigger] items@[k]) matches Json::Str(s) && out@[k] == s),
        decreases items@.len() - i,
    {
        match &items[i] {
            Json::Str(s) => out.push(s.clone()),
            _ => {
                proof {
                    assert(!(items@[i as int] is Str));
                }
                return None;
            },
        }
        i += 1;
    }
    Some(out)
}

/// Loads a channel header from its parsed descriptor; a descriptor that is
/// not channel-shaped is a malformed export.
pub fn channel_of_json(j: &Json) -> (r: Result<Channel, EngineError>)
    ensures
        match r {
            Ok(c) => channel_json_ok(*j) && is_channel_of_json(c, *j),
            Err(e) => !channel_json_ok(*j) && e == EngineError::MalformedExport,
        },
{
    match j {
        Json::Obj(fields) => {
            let key_id = String::from_str("id");
            let idj = match obj_lookup(fields, &key_id) {
                Some(x) => x,
                None => {
                    return Err(EngineError::MalformedExport);
                },
            };
            let id = match canon_id(idj) {
                Some(s) => s,
                None => {
                    return Err(EngineError::MalformedExport);
                },
            };
            let key_type = String::from_str("type");
            let kind = match obj_lookup(fields, &key_type) {
                Some(Json::Str(t)) => {
                    let dm = String::from_str("DM");
                    let gt = String::from_str("GUILD_TEXT");
                    if *t == dm {
                        ChannelKind::DirectMessage
                    } else if *t == gt {
                        ChannelKind::GuildText
                    } else {
                        ChannelKind::Other
                    }
                },
                _ => {
                    return Err(EngineError::MalformedExport);
                },
            };
            let key_rec = String::from_str("recipients");
            let recipients = match obj_lookup(fields, &key_rec) {
                None => None,
                Some(Json::Null) => None,
                Some(Json::Arr(items)) => match strings_of_items(items) {
                    Some(v) => Some(v),
                    None => {
                        return Err(EngineError::MalformedExport);
                    },
                },
                Some(_) => {
                    return Err(EngineError::MalformedExport);
                },
            };
            Ok(Channel { id, kind, recipients })
        },
        _ => Err(EngineError::MalformedExport),
    }
}

/// Shape of a message record's optional `Attachments` field.
pub open spec fn attachments_field_ok(f: Option<Json>) -> bool {
    match f {
        None => true,
        Some(Json::Null) => true,
        Some(Json::Str(_)) => true,
        Some(_) => false,
    }
}

/// Relation between the `Attachments` field and the loaded value.
pub open spec fn attachments_match(f: Option<Json>, a: Option<String>) -> bool {
    match f {
        None => a is None,
        Some(Json::Null) => a is None,
        Some(Json::Str(s)) => a matches Some(x) && x == s,
        Some(_) => false,
    }
}

/// A structurally valid message record.
pub open spec fn message_json_ok(j: Json) -> bool {
    &&& j matches Json::Obj(f)
    &&& spec_obj_lookup(f@, "ID"@) matches Some(idj) && spec_canon_id(idj) is Some
    &&& spec_obj_lookup(f@, "Timestamp"@) matches Some(tj) && tj is Str
    &&& spec_obj_lookup(f@, "Contents"@) matches Some(cj) && cj is Str
    &&& attachments_field_ok(spec_obj_lookup(f@, "Attachments"@))
}

/// The message a valid record loads to.
pub open spec fn is_message_of_json(m: Message, j: Json) -> bool {
    &&& j matches Json::Obj(f)
    &&& spec_obj_lookup(f@, "ID"@) matches Some(idj) && spec_canon_id(idj) == Some(m.id@)
    &&& spec_obj_lookup(f@, "Timestamp"@) matches Some(tj) && tj matches Json::Str(t)
        && m.timestamp == t
    &&& spec_obj_lookup(f@, "Contents"@) matches Some(cj) && cj matches Json::Str(c) && m.contents
        == c
    &&& attachments_match(spec_obj_lookup(f@, "Attachments"@), m.attachments)
}

fn message_of_json(j: &Json) -> (r: Result<Message, EngineError>)
    ensures
        match r {
            Ok(m) => message_json_ok(*j) && is_message_of_json(m, *j),
            Err(e) => !message_json_ok(*j) && e == EngineError::MalformedExport,
        },
{
    match j {
        Json::Obj(f) => {
            let key_id = String::from_str("ID");
            let id = match obj_lookup(f, &key_id) {
                Some(idj) => match canon_id(idj) {
                    Some(s) => s,
                    None => {
                        return Err(EngineError::MalformedExport);
                    },
                },
                None => {
                    return Err(EngineError::MalformedExport);
                },
            };
            let key_ts = String::from_str("Timestamp");
            let timestamp = match obj_lookup(f, &key_ts) {
                Some(Json::Str(t)) => t.clone(),
                _ => {
                    return Err(EngineError::MalformedExport);
                },
            };
            let key_ct = String::from_str("Contents");
            let contents = match obj_lookup(f, &key_ct) {
                Some(Json::Str(c)) => c.clone(),
                _ => {
                    return Err(EngineError::MalformedExport);
                },
            };
            let key_at = String::from_str("Attachments");
            let attachments = match obj_lookup(f, &key_at) {
                None => None,
                Some(Json::Null) => None,
                Some(Json::Str(s)) => Some(s.clone()),
                Some(_) => {
                    return Err(EngineError::MalformedExport);
                },
            };
            Ok(Message { id, timestamp, contents, attachments })
        },
        _ => Err(EngineError::MalformedExport),
    }
}

/// A structurally valid message list.
pub open spec fn messages_json_ok(j: Json) -> bool {
    &&& j matches Json::Arr(items)
    &&& forall|i: int| 0 <= i < items@.len() ==> message_json_ok(#[trigger] items@[i])
}

/// The messages a valid list loads to, in file order.
pub open spec fn is_messages_of_json(ms: Seq<Message>, j: Json) -> bool {
    &&& j matches Json::Arr(items)
    &&& ms.len() == items@.len()
    &&& forall|i: int| 0 <= i < ms.len() ==> is_message_of_json(#[trigger] ms[i], items@[i])
}

fn messages_of_items(items: &Vec<Json>) -> (r: Result<Vec<Message>, EngineError>)
    ensures
        match r {
            Ok(v) => v@.len() == items@.len() && (forall|i: int|
                0 <= i < items@.len() ==> message_json_ok(#[trigger] items@[i])) && forall|i: int|
                0 <= i < items@.len() ==> is_message_of_json(#[trigger] v@[i], items@[i]),
            Err(e) => e == EngineError::MalformedExport && !(forall|i: int|
                0 <= i < items@.len() ==> message_json_ok(#[trigger] items@[i])),
        },
{
    let mut out: Vec<Message> = Vec::new();
    let mut i: usize = 0;
    while i < items.len()
        invariant
            0 <= i <= items@.len(),
            out@.len() == i,
            forall|k: int| 0 <= k < i ==> message_json_ok(#[trigger] items@[k]),
            forall|k: int| 0 <= k < i ==> is_message_of_json(#[trigger] out@[k], items@[k]),
        decreases items@.len() - i,
    {
        match message_of_json(&items[i]) {
            Ok(m) => out.push(m),
            Err(e) => {
                proof {
                    assert(!message_json_ok(items@[i as int]));
                }
                return Err(e);
            },
        }
        i += 1;
    }
    Ok(out)
}

/// Loads the ordered message list from its parsed document; a document that
/// is not a list of message records is a malformed export.
pub fn messages_of_json(j: &Json) -> (r: Result<Vec<Message>, EngineError>)
    ensures
        match r {
            Ok(v) => messages_json_ok(*j) && is_messages_of_json(v@, *j),
            Err(e) => !messages_json_ok(*j) && e == EngineError::MalformedExport,
        },
{
    match j {
        Json::Arr(items) => messages_of_items(items),
        _ => Err(EngineError::MalformedExport),
    }
}

/// The subsequence of messages whose id is not recorded as deleted, in
/// source order.
pub open spec fn spec_filter_messages(ms: Seq<Message>, ids: Seq<String>) -> Seq<Message>
    decreases ms.len(),
{
    if ms.len() == 0 {
        Seq::empty()
    } else {
        let rest = spec_filter_messages(ms.drop_last(), ids);
        if spec_id_deleted(ids, ms.last().id@) {
            rest
        } else {
            rest.push(ms.last())
        }
    }
}

/// Drops every message whose id appears in the ledger snapshot, keeping
/// source order.
pub fn filter_messages(ms: &Vec<Message>, ids: &Vec<String>) -> (r: Vec<Message>)
    ensures
        r@ == spec_filter_messages(ms@, ids@),
{
    let mut out: Vec<Message> = Vec::new();
    let mut i: usize = 0;
    while i < ms.len()
        invariant
            0 <= i <= ms@.len(),
            out@ == spec_filter_messages(ms@.take(i as int), ids@),
        decreases ms@.len() - i,
    {
        proof {
            assert(ms@.take(i as int + 1).drop_last() =~= ms@.take(i as int));
            assert(ms@.take(i as int + 1).last() == ms@[i as int]);
        }
        let m = &ms[i];
        if !id_deleted(ids, &m.id) {
            out.push(m.clone());
        }
        i += 1;
    }
    proof {
        assert(ms@.take(ms@.len() as int) =~= ms@);
    }
    out
}

/// Filtering is faithful: a deleted id never survives, in any channel.
pub proof fn lemma_filter_removes_deleted(ms: Seq<Message>, ids: Seq<String>, id: Seq<char>)
    requires
        spec_id_deleted(ids, id),
    ensures
        forall|k: int|
            0 <= k < spec_filter_messages(ms, ids).len() ==> (#[trigger] spec_filter_messages(
                ms,
                ids,
            )[k]).id@ != id,
    decreases ms.len(),
{
    if ms.len() > 0 {
        lemma_filter_removes_deleted(ms.drop_last(), ids, id);
    }
}

/// An empty ledger filters nothing: on a first run, before any deletion was
/// ever recorded, every message survives.
pub proof fn lemma_empty_ledger_filters_nothing(ms: Seq<Message>)
    ensures
        spec_filter_messages(ms, Seq::empty()) == ms,
    decreases ms.len(),
{
    if ms.len() == 0 {
        assert(spec_filter_messages(ms, Seq::empty()) =~= ms);
    } else {
        lemma_empty_ledger_filters_nothing(ms.drop_last());
        assert(ms.drop_last().push(ms.last()) =~= ms);
    }
}

/// The classifier's verdict for one channel.
pub enum Classified {
    Dm(DmChat),
    Guild(GuildChat),
    Skipped,
}

/// Routes a loaded channel into its conversation shape. A direct-message
/// channel needs exactly two recipient entries; the displayed identity is
/// the first unless that is the `Deleted User` sentinel, while the recipient
/// id is always the second. Any other count, and any unknown kind, is
/// excluded silently rather than failing the build.
pub fn classify_channel(channel: Channel, messages: Vec<Message>) -> (r: Classified)
    ensures
        channel.kind == ChannelKind::DirectMessage ==> (match channel.recipients {
            Some(rs) => if rs@.len() == 2 {
                r == Classified::Dm(
                    DmChat {
                        id: channel.id,
                        recipient_id: rs@[1],
                        recipient_name: if rs@[0]@ == "Deleted User"@ {
                            rs@[1]
                        } else {
                            rs@[0]
                        },
                        messages,
                    },
                )
            } else {
                r == Classified::Skipped
            },
            None => r == Classified::Skipped,
        }),
        channel.kind == ChannelKind::GuildText ==> r == Classified::Guild(
            GuildChat { id: channel.id, messages },
        ),
        channel.kind == ChannelKind::Other ==> r == Classified::Skipped,
{
    let Channel { id, kind, recipients } = channel;
    match kind {
        ChannelKind::DirectMessage => match recipients {
            Some(rs) => if rs.len() == 2 {
                let sentinel = String::from_str("Deleted User");
                let recipient_name = if rs[0] == sentinel {
                    rs[1].clone()
                } else {
                    rs[0].clone()
                };
                Classified::Dm(
                    DmChat { id, recipient_id: rs[1].clone(), recipient_name, messages },
                )
            } else {
                Classified::Skipped
            },
            None => Classified::Skipped,
        },
        ChannelKind::GuildText => Classified::Guild(GuildChat { id, messages }),
        ChannelKind::Other => Classified::Skipped,
    }
}

} // verus!
