//! What holds of the codec and the peer sets across calls.

use vstd::prelude::*;
use crate::message::MessageView;
use crate::peers::PeerAddr;
use crate::wire::{
    chat_datagram, decoded, discovery_datagram, join_fields, lemma_fields_unseparated,
    lemma_join_split,
    lemma_split_concat, lemma_split_nonempty, lemma_split_single, split_fields, FIELD_SEPARATOR,
    MSG_TYPE_CHAT, MSG_TYPE_DISCOVERY, MSG_TYPE_DISCOVERY_RESPONSE,
};

verus! {

/// Decoding the chat datagram of a message gives back the type `CHAT`, the
/// sender's name, the content and the address label, provided the name and
/// the label hold no separator. The content may hold separators: it is
/// rejoined from the trailing fields. A separator inside the name or the
/// label is not escaped and shifts the fields.
pub proof fn lemma_chat_round_trip(m: MessageView)
    requires
        !m.sender_name.contains(FIELD_SEPARATOR),
        !m.sender_ip.contains(FIELD_SEPARATOR),
    ensures
        decoded(chat_datagram(m)) == (MSG_TYPE_CHAT@, m.sender_name, m.content, m.sender_ip),
{
    reveal_strlit("CHAT");
    let tag = MSG_TYPE_CHAT@;
    let sep = seq![FIELD_SEPARATOR];
    let s = chat_datagram(m);
    let tail = m.sender_ip + sep + m.content;
    let body = m.sender_name + sep + tail;
    assert(s =~= tag + sep + body);
    assert(!tag.contains(FIELD_SEPARATOR)) by {
        assert(tag =~= seq!['C', 'H', 'A', 'T']);
    }
    lemma_split_concat(tag, body);
    lemma_split_concat(m.sender_name, tail);
    lemma_split_concat(m.sender_ip, m.content);
    lemma_split_single(tag);
    lemma_split_single(m.sender_name);
    lemma_split_single(m.sender_ip);
    lemma_split_nonempty(m.content);
    lemma_join_split(m.content);
    let f = split_fields(s);
    assert(f =~= seq![tag, m.sender_name, m.sender_ip] + split_fields(m.content));
    assert(f.subrange(3, f.len() as int) =~= split_fields(m.content));
    assert(s.len() > 0);
}

/// A sender's name that holds a separator does not come back from
/// decoding: the separator is not escaped, and the name is cut at it.
pub proof fn lemma_separator_in_name_is_lost(m: MessageView)
    requires
        m.sender_name.contains(FIELD_SEPARATOR),
    ensures
        decoded(chat_datagram(m)).1 != m.sender_name,
{
    reveal_strlit("CHAT");
    let tag = MSG_TYPE_CHAT@;
    let sep = seq![FIELD_SEPARATOR];
    let s = chat_datagram(m);
    let body = m.sender_name + sep + (m.sender_ip + sep + m.content);
    assert(s =~= tag + sep + body);
    assert(!tag.contains(FIELD_SEPARATOR)) by {
        assert(tag =~= seq!['C', 'H', 'A', 'T']);
    }
    lemma_split_concat(tag, body);
    lemma_split_single(tag);
    lemma_split_nonempty(body);
    lemma_fields_unseparated(s);
    let f = split_fields(s);
    assert(f[1] == split_fields(body)[0]);
    if f.len() >= 4 {
        assert(s.len() > 0);
        assert(decoded(s).1 == f[1]);
        assert(!f[1].contains(FIELD_SEPARATOR));
    } else {
        assert(s.len() > 0);
        assert(f.len() >= 2);
        reveal_strlit("Unknown");
        assert(decoded(s).1 == "Unknown"@);
        assert(!"Unknown"@.contains(FIELD_SEPARATOR)) by {
            assert("Unknown"@ =~= seq!['U', 'n', 'k', 'n', 'o', 'w', 'n']);
        }
    }
}

/// Every datagram of four fields or more decodes field by field: field 0 is
/// the type, field 1 the name, field 2 the ip field, and the fields from 3 on,
/// rejoined by the separator, the content.
pub proof fn lemma_four_fields(s: Seq<char>)
    requires
        split_fields(s).len() >= 4,
    ensures
        decoded(s) == ({
            let f = split_fields(s);
            (f[0], f[1], join_fields(f.subrange(3, f.len() as int)), f[2])
        }),
{
    assert(s.len() > 0);
}

/// A datagram without a separator decodes to the empty type, so it is
/// neither a chat message nor a discovery datagram.
pub proof fn lemma_no_separator_untyped(s: Seq<char>)
    requires
        !s.contains(FIELD_SEPARATOR),
    ensures
        decoded(s).0 == Seq::<char>::empty(),
        decoded(s).0 != MSG_TYPE_CHAT@,
        decoded(s).0 != MSG_TYPE_DISCOVERY@,
        decoded(s).0 != MSG_TYPE_DISCOVERY_RESPONSE@,
{
    reveal_strlit("CHAT");
    reveal_strlit("DISCOVER");
    reveal_strlit("DISCOVER_RESPONSE");
    lemma_split_single(s);
}

/// A discovery datagram, probe or answer, decodes to its own type, whatever
/// name it carries.
pub proof fn lemma_discovery_type(tag: Seq<char>, name: Seq<char>)
    requires
        tag == MSG_TYPE_DISCOVERY@ || tag == MSG_TYPE_DISCOVERY_RESPONSE@,
    ensures
        decoded(discovery_datagram(tag, name)).0 == tag,
{
    reveal_strlit("DISCOVER");
    reveal_strlit("DISCOVER_RESPONSE");
    let sep = seq![FIELD_SEPARATOR];
    let rest = name + sep + "None"@;
    assert(discovery_datagram(tag, name) =~= tag + sep + rest);
    assert(!tag.contains(FIELD_SEPARATOR)) by {
        if tag.contains(FIELD_SEPARATOR) {
            let k = choose|k: int| 0 <= k < tag.len() && tag[k] == FIELD_SEPARATOR;
            if tag == MSG_TYPE_DISCOVERY@ {
                assert(tag =~= seq!['D', 'I', 'S', 'C', 'O', 'V', 'E', 'R']);
            } else {
                assert(tag =~= seq![
                    'D', 'I', 'S', 'C', 'O', 'V', 'E', 'R', '_', 'R', 'E', 'S', 'P', 'O', 'N', 'S', 'E',
                ]);
            }
        }
    }
    lemma_split_concat(tag, rest);
    lemma_split_single(tag);
    lemma_split_nonempty(rest);
    assert(split_fields(tag + sep + rest)[0] == tag);
}

/// Inserting an address twice: the first insert of a new address grows the
/// set by one, the second changes nothing.
pub proof fn lemma_insert_idempotent(s: Set<PeerAddr>, a: PeerAddr)
    requires
        s.finite(),
    ensures
        s.insert(a).contains(a),
        s.insert(a).insert(a) == s.insert(a),
        !s.contains(a) ==> s.insert(a).len() == s.len() + 1,
        s.contains(a) ==> s.insert(a) == s,
{
    assert(s.insert(a).insert(a) =~= s.insert(a));
    if s.contains(a) {
        assert(s.insert(a) =~= s);
    }
}

/// A merge into the sending side keeps every address that the receiving side
/// held, and every address the sending side held.
pub proof fn lemma_merge_keeps(receiver: Set<PeerAddr>, broadcaster: Set<PeerAddr>)
    ensures
        receiver.subset_of(broadcaster.union(receiver)),
        broadcaster.subset_of(broadcaster.union(receiver)),
{
}

} // verus!
