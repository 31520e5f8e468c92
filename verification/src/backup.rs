//! Archive assembly: runs loader, filter and classifier over every channel
//! directory's documents and accumulates the two output sequences. The root
//! must be a directory, the ledger must load, and any malformed channel
//! aborts the whole build — no partial archive is ever returned.
use crate::export::{
    channel_json_ok, channel_of_json, classify_channel, filter_messages, is_message_of_json,
    messages_json_ok, messages_of_json, spec_filter_messages, spec_kind_of, ChannelKind,
    Classified, DiscordBackup, DmChat, GuildChat, Message,
};
use crate::ident::spec_canon_id;
use crate::json::{parse_json, parsed_json, spec_obj_lookup, Json};
use crate::ledger::{
    doc_view, load_ledger, message_ids, spec_id_deleted, spec_ledger_of_doc, spec_message_ids,
};
use crate::EngineError;
use vstd::prelude::*;
use vstd::string::*;

verus! {

/// The two documents found in one channel directory.
pub struct ChatDocs {
    pub channel_text: String,
    pub messages_text: String,
}

/// The parsed channel descriptor of a chat, where there is one.
pub open spec fn chat_cj(d: ChatDocs) -> Json {
    match parsed_json(d.channel_text@) {
        Some(cj) => cj,
        None => Json::Unsupported,
    }
}

/// The message items of a chat's message list, where there are any.
pub open spec fn chat_msg_items(d: ChatDocs) -> Seq<Json> {
    match parsed_json(d.messages_text@) {
        Some(Json::Arr(items)) => items@,
        _ => Seq::empty(),
    }
}

/// The canonical channel id a valid descriptor carries.
pub open spec fn spec_channel_canon(cj: Json) -> Seq<char> {
    match cj {
        Json::Obj(fields) => match spec_obj_lookup(fields@, "id"@) {
            Some(idj) => match spec_canon_id(idj) {
                Some(s) => s,
                None => Seq::empty(),
            },
            None => Seq::empty(),
        },
        _ => Seq::empty(),
    }
}

/// The kind a descriptor announces.
pub open spec fn spec_channel_kind(cj: Json) -> ChannelKind {
    match cj {
        Json::Obj(fields) => match spec_obj_lookup(fields@, "type"@) {
            Some(Json::Str(t)) => spec_kind_of(t@),
            _ => ChannelKind::Other,
        },
        _ => ChannelKind::Other,
    }
}

/// The recipient entries a descriptor carries.
pub open spec fn spec_recipient_items(cj: Json) -> Seq<Json> {
    match cj {
        Json::Obj(fields) => match spec_obj_lookup(fields@, "recipients"@) {
            Some(Json::Arr(items)) => items@,
            _ => Seq::empty(),
        },
        _ => Seq::empty(),
    }
}

/// A direct-message descriptor enters the archive only with exactly two
/// recipient entries.
pub open spec fn spec_dm_included(cj: Json) -> bool {
    match cj {
        Json::Obj(fields) => match spec_obj_lookup(fields@, "recipients"@) {
            Some(Json::Arr(items)) => items@.len() == 2,
            _ => false,
        },
        _ => false,
    }
}

/// One recipient string of a descriptor.
pub open spec fn spec_recipient(cj: Json, k: int) -> String {
    spec_recipient_items(cj)[k]->Str_0
}

/// The canonical id a message item carries.
pub open spec fn spec_item_id(jm: Json) -> Seq<char> {
    match jm {
        Json::Obj(f) => match spec_obj_lookup(f@, "ID"@) {
            Some(idj) => match spec_canon_id(idj) {
                Some(s) => s,
                None => Seq::empty(),
            },
            None => Seq::empty(),
        },
        _ => Seq::empty(),
    }
}

/// `ms` is exactly the loaded form of the message items whose id is not
/// recorded as deleted, in source order.
pub open spec fn is_filtered_msgs(ms: Seq<Message>, items: Seq<Json>, ids: Seq<String>) -> bool
    decreases items.len(),
{
    if items.len() == 0 {
        ms.len() == 0
    } else if spec_id_deleted(ids, spec_item_id(items.last())) {
        is_filtered_msgs(ms, items.drop_last(), ids)
    } else {
        ms.len() > 0 && is_message_of_json(ms.last(), items.last()) && is_filtered_msgs(
            ms.drop_last(),
            items.drop_last(),
            ids,
        )
    }
}

proof fn lemma_filtered_bridge(all: Seq<Message>, items: Seq<Json>, ids: Seq<String>)
    requires
        all.len() == items.len(),
        forall|i: int| 0 <= i < all.len() ==> is_message_of_json(#[trigger] all[i], items[i]),
    ensures
        is_filtered_msgs(spec_filter_messages(all, ids), items, ids),
    decreases all.len(),
{
    if all.len() > 0 {
        lemma_filtered_bridge(all.drop_last(), items.drop_last(), ids);
        assert(is_message_of_json(all.last(), items.last()));
        assert(spec_item_id(items.last()) == all.last().id@);
        let rest = spec_filter_messages(all.drop_last(), ids);
        if !spec_id_deleted(ids, all.last().id@) {
            assert(rest.push(all.last()).last() == all.last());
            assert(rest.push(all.last()).drop_last() =~= rest);
        }
    }
}

/// What one chat contributes to the build.
#[derive(Clone, Copy, Debug, PartialEq, Eq, Structural)]
pub enum ChatOutcome {
    Malformed,
    Direct,
    Guild,
    Skip,
}

/// Classifies one chat's documents: malformed text aborts, a two-recipient
/// direct message and a guild-text channel contribute, anything else is
/// silently skipped.
pub open spec fn spec_chat_outcome(d: ChatDocs) -> ChatOutcome {
    match parsed_json(d.channel_text@) {
        None => ChatOutcome::Malformed,
        Some(cj) => if !channel_json_ok(cj) {
            ChatOutcome::Malformed
        } else {
            match parsed_json(d.messages_text@) {
                None => ChatOutcome::Malformed,
                Some(mj) => if !messages_json_ok(mj) {
                    ChatOutcome::Malformed
                } else if spec_channel_kind(cj) == ChannelKind::DirectMessage {
                    if spec_dm_included(cj) {
                        ChatOutcome::Direct
                    } else {
                        ChatOutcome::Skip
                    }
                } else if spec_channel_kind(cj) == ChannelKind::GuildText {
                    ChatOutcome::Guild
                } else {
                    ChatOutcome::Skip
                },
            }
        },
    }
}

/// The direct-message conversation one chat yields: canonical channel id,
/// the second recipient as recipient id, the sentinel-aware display name,
/// and the filtered messages.
pub open spec fn is_dm_of_chat(dm: DmChat, d: ChatDocs, ids: Seq<String>) -> bool {
    let cj = chat_cj(d);
    &&& dm.id@ == spec_channel_canon(cj)
    &&& dm.recipient_id == spec_recipient(cj, 1)
    &&& dm.recipient_name == if spec_recipient(cj, 0)@ == "Deleted User"@ {
        spec_recipient(cj, 1)
    } else {
        spec_recipient(cj, 0)
    }
    &&& is_filtered_msgs(dm.messages@, chat_msg_items(d), ids)
}

/// The guild conversation one chat yields.
pub open spec fn is_guild_of_chat(g: GuildChat, d: ChatDocs, ids: Seq<String>) -> bool {
    &&& g.id@ == spec_channel_canon(chat_cj(d))
    &&& is_filtered_msgs(g.messages@, chat_msg_items(d), ids)
}

/// The accumulated archive for a chat sequence: every chat well-formed,
/// every contribution present in order, nothing else in the output.
pub open spec fn is_backup_of(
    dms: Seq<DmChat>,
    guilds: Seq<GuildChat>,
    chats: Seq<ChatDocs>,
    ids: Seq<String>,
) -> bool
    decreases chats.len(),
{
    if chats.len() == 0 {
        dms.len() == 0 && guilds.len() == 0
    } else {
        let d = chats.last();
        match spec_chat_outcome(d) {
            ChatOutcome::Malformed => false,
            ChatOutcome::Direct => dms.len() > 0 && is_dm_of_chat(dms.last(), d, ids)
                && is_backup_of(dms.drop_last(), guilds, chats.drop_last(), ids),
            ChatOutcome::Guild => guilds.len() > 0 && is_guild_of_chat(guilds.last(), d, ids)
                && is_backup_of(dms, guilds.drop_last(), chats.drop_last(), ids),
            ChatOutcome::Skip => is_backup_of(dms, guilds, chats.drop_last(), ids),
        }
    }
}

fn process_chat(d: &ChatDocs, ids: &Vec<String>) -> (r: Result<Classified, EngineError>)
    ensures
        match r {
            Ok(cls) => match cls {
                Classified::Dm(dm) => spec_chat_outcome(*d) == ChatOutcome::Direct
                    && is_dm_of_chat(dm, *d, ids@),
                Classified::Guild(g) => spec_chat_outcome(*d) == ChatOutcome::Guild
                    && is_guild_of_chat(g, *d, ids@),
                Classified::Skipped => spec_chat_outcome(*d) == ChatOutcome::Skip,
            },
            Err(e) => spec_chat_outcome(*d) == ChatOutcome::Malformed && e
                == EngineError::MalformedExport,
        },
{
    let cj = match parse_json(d.channel_text.as_str()) {
        Some(x) => x,
        None => {
            return Err(EngineError::MalformedExport);
        },
    };
    let channel = match channel_of_json(&cj) {
        Ok(c) => c,
        Err(e) => {
            return Err(e);
        },
    };
    let mj = match parse_json(d.messages_text.as_str()) {
        Some(x) => x,
        None => {
            return Err(EngineError::MalformedExport);
        },
    };
    let msgs = match messages_of_json(&mj) {
        Ok(v) => v,
        Err(e) => {
            return Err(e);
        },
    };
    let filtered = filter_messages(&msgs, ids);
    let ghost gchan = channel;
    proof {
        assert(chat_cj(*d) == cj);
        assert(mj matches Json::Arr(its) && chat_msg_items(*d) == its@);
        lemma_filtered_bridge(msgs@, chat_msg_items(*d), ids@);
        assert(spec_channel_kind(cj) == gchan.kind);
        assert(gchan.id@ == spec_channel_canon(cj));
    }
    let cls = classify_channel(channel, filtered);
    proof {
        match &cls {
            Classified::Dm(dm) => {
                assert(gchan.kind == ChannelKind::DirectMessage);
                assert(gchan.recipients matches Some(rs) && rs@.len() == 2);
                assert(spec_dm_included(cj));
                assert(spec_chat_outcome(*d) == ChatOutcome::Direct);
                let rs = gchan.recipients->Some_0;
                assert(rs@[0] == spec_recipient(cj, 0));
                assert(rs@[1] == spec_recipient(cj, 1));
                assert(is_dm_of_chat(*dm, *d, ids@));
            },
            Classified::Guild(g) => {
                assert(gchan.kind == ChannelKind::GuildText);
                assert(spec_chat_outcome(*d) == ChatOutcome::Guild);
                assert(is_guild_of_chat(*g, *d, ids@));
            },
            Classified::Skipped => {
                assert(spec_chat_outcome(*d) == ChatOutcome::Skip);
            },
        }
    }
    Ok(cls)
}

/// Builds the archive from the export root's contents: the root must be a
/// directory, the ledger document must load (a missing one is an empty
/// ledger), and every channel directory's documents must be well-formed.
/// The result collects every contribution in input order; a malformed chat
/// aborts the build with no partial archive.
pub fn read_discord_backup(
    root_is_dir: bool,
    ledger_doc: Option<&str>,
    chats: &Vec<ChatDocs>,
) -> (r: Result<DiscordBackup, EngineError>)
    ensures
        !root_is_dir ==> r == Err::<DiscordBackup, EngineError>(EngineError::InvalidInput),
        root_is_dir && spec_ledger_of_doc(doc_view(ledger_doc)) is Err ==> r == Err::<
            DiscordBackup,
            EngineError,
        >(EngineError::LedgerCorrupt),
        (root_is_dir && spec_ledger_of_doc(doc_view(ledger_doc)) is Ok) ==> match r {
            Ok(b) => is_backup_of(
                b.dms@,
                b.guilds@,
                chats@,
                spec_message_ids(spec_ledger_of_doc(doc_view(ledger_doc))->Ok_0),
            ),
            Err(e) => e == EngineError::MalformedExport && exists|i: int|
                0 <= i < chats@.len() && spec_chat_outcome(#[trigger] chats@[i])
                    == ChatOutcome::Malformed,
        },
{
    if !root_is_dir {
        return Err(EngineError::InvalidInput);
    }
    let entries = match load_ledger(ledger_doc) {
        Ok(v) => v,
        Err(_) => {
            return Err(EngineError::LedgerCorrupt);
        },
    };
    let ghost es = entries@;
    let ids = message_ids(&entries);
    let mut dms: Vec<DmChat> = Vec::new();
    let mut guilds: Vec<GuildChat> = Vec::new();
    let mut i: usize = 0;
    proof {
        assert(chats@.take(0) =~= Seq::<ChatDocs>::empty());
    }
    while i < chats.len()
        invariant
            0 <= i <= chats@.len(),
            root_is_dir,
            spec_ledger_of_doc(doc_view(ledger_doc)) == Ok::<_, EngineError>(es),
            ids@ == spec_message_ids(es),
            is_backup_of(dms@, guilds@, chats@.take(i as int), ids@),
        decreases chats@.len() - i,
    {
        proof {
            assert(chats@.take(i as int + 1).drop_last() =~= chats@.take(i as int));
            assert(chats@.take(i as int + 1).last() == chats@[i as int]);
        }
        match process_chat(&chats[i], &ids) {
            Ok(Classified::Dm(dm)) => {
                let ghost prev = dms@;
                dms.push(dm);
                proof {
                    assert(dms@.drop_last() =~= prev);
                    assert(dms@.last() == dm);
                    assert(is_backup_of(dms@, guilds@, chats@.take(i as int + 1), ids@));
                }
            },
            Ok(Classified::Guild(g)) => {
                let ghost prev = guilds@;
                guilds.push(g);
                proof {
                    assert(guilds@.drop_last() =~= prev);
                    assert(guilds@.last() == g);
                    assert(is_backup_of(dms@, guilds@, chats@.take(i as int + 1), ids@));
                }
            },
            Ok(Classified::Skipped) => {
                proof {
                    assert(is_backup_of(dms@, guilds@, chats@.take(i as int + 1), ids@));
                }
            },
            Err(e) => {
                proof {
                    assert(spec_chat_outcome(chats@[i as int]) == ChatOutcome::Malformed);
                }
                return Err(e);
            },
        }
        i += 1;
    }
    proof {
        assert(chats@.take(chats@.len() as int) =~= chats@);
    }
    Ok(DiscordBackup { dms, guilds })
}

} // verus!
