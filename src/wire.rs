//! The flat, `~`-delimited text protocol used for discovery and chat datagrams.

use vstd::prelude::*;
use crate::message::{encoded, Message, MessageView};
use crate::text::{push_char, push_text, views};

verus! {

/// The single character that separates the fields of a datagram.
pub const FIELD_SEPARATOR: char = '~';

/// Type tag of a discovery probe.
pub const MSG_TYPE_DISCOVERY: &'static str = "DISCOVER";

/// Type tag of the answer to a discovery probe.
pub const MSG_TYPE_DISCOVERY_RESPONSE: &'static str = "DISCOVER_RESPONSE";

/// Type tag of a chat message.
pub const MSG_TYPE_CHAT: &'static str = "CHAT";

/// Filler for the unused last field of discovery datagrams.
pub const UNUSED_FIELD: &'static str = "None";

/// The address label an outgoing chat message carries; receivers ignore it
/// and use the address the datagram came from.
pub const OUTBOUND_MESSAGE_REPORTED_IP: &'static str = "000.000.000.000";

/// The fields of `s` between separators, left to right. Text without a
/// separator is one field; empty text is one empty field.
pub open spec fn split_fields(s: Seq<char>) -> Seq<Seq<char>>
    decreases s.len(),
{
    if s.len() == 0 {
        seq![Seq::empty()]
    } else {
        let fields = split_fields(s.drop_last());
        if s.last() == FIELD_SEPARATOR {
            fields.push(Seq::empty())
        } else {
            fields.update(fields.len() - 1, fields.last().push(s.last()))
        }
    }
}

/// The fields put back together with one separator between neighbours.
pub open spec fn join_fields(fields: Seq<Seq<char>>) -> Seq<char>
    decreases fields.len(),
{
    if fields.len() == 0 {
        Seq::empty()
    } else if fields.len() == 1 {
        fields[0]
    } else {
        join_fields(fields.drop_last()) + seq![FIELD_SEPARATOR] + fields.last()
    }
}

/// Splitting always yields at least one field.
pub proof fn lemma_split_nonempty(s: Seq<char>)
    ensures
        split_fields(s).len() >= 1,
    decreases s.len(),
{
    if s.len() > 0 {
        lemma_split_nonempty(s.drop_last());
    }
}

/// Text without a separator is a single field.
pub proof fn lemma_split_single(s: Seq<char>)
    requires
        !s.contains(FIELD_SEPARATOR),
    ensures
        split_fields(s) == seq![s],
    decreases s.len(),
{
    if s.len() > 0 {
        let p = s.drop_last();
        assert(!p.contains(FIELD_SEPARATOR)) by {
            if p.contains(FIELD_SEPARATOR) {
                let k = choose|k: int| 0 <= k < p.len() && p[k] == FIELD_SEPARATOR;
                assert(s[k] == FIELD_SEPARATOR);
            }
        }
        lemma_split_single(p);
        assert(s.last() != FIELD_SEPARATOR) by {
            assert(s[s.len() - 1] == s.last());
        }
        assert(p.push(s.last()) =~= s);
        assert(split_fields(s) =~= seq![s]);
    } else {
        assert(s =~= Seq::<char>::empty());
        assert(split_fields(s) =~= seq![s]);
    }
}

/// No field holds a separator.
pub proof fn lemma_fields_unseparated(s: Seq<char>)
    ensures
        forall|k: int|
            0 <= k < split_fields(s).len() ==> !(#[trigger] split_fields(s)[k]).contains(
                FIELD_SEPARATOR,
            ),
    decreases s.len(),
{
    if s.len() > 0 {
        let p = s.drop_last();
        lemma_fields_unseparated(p);
        lemma_split_nonempty(p);
        let f = split_fields(p);
        if s.last() != FIELD_SEPARATOR {
            let g = split_fields(s);
            assert forall|k: int| 0 <= k < g.len() implies !(#[trigger] g[k]).contains(
                FIELD_SEPARATOR,
            ) by {
                if k == g.len() - 1 {
                    if g[k].contains(FIELD_SEPARATOR) {
                        let i = choose|i: int| 0 <= i < g[k].len() && g[k][i] == FIELD_SEPARATOR;
                        assert(f.last()[i] == FIELD_SEPARATOR);
                        assert(f.last().contains(FIELD_SEPARATOR));
                    }
                } else {
                    assert(g[k] == f[k]);
                }
            }
        } else {
            let g = split_fields(s);
            assert forall|k: int| 0 <= k < g.len() implies !(#[trigger] g[k]).contains(
                FIELD_SEPARATOR,
            ) by {
                if k < g.len() - 1 {
                    assert(g[k] == f[k]);
                }
            }
        }
    }
}

/// The fields of `a ~ b` are those of `a` followed by those of `b`.
pub proof fn lemma_split_concat(a: Seq<char>, b: Seq<char>)
    ensures
        split_fields(a + seq![FIELD_SEPARATOR] + b) == split_fields(a) + split_fields(b),
    decreases b.len(),
{
    let s = a + seq![FIELD_SEPARATOR] + b;
    lemma_split_nonempty(a);
    if b.len() == 0 {
        assert(s.drop_last() =~= a);
        assert(split_fields(s) =~= split_fields(a) + split_fields(b));
    } else {
        let b0 = b.drop_last();
        lemma_split_concat(a, b0);
        lemma_split_nonempty(b0);
        assert(s.drop_last() =~= a + seq![FIELD_SEPARATOR] + b0);
        assert(s.last() == b.last());
        assert(split_fields(s) =~= split_fields(a) + split_fields(b));
    }
}

/// Joining the fields of `s` gives `s` back.
pub proof fn lemma_join_split(s: Seq<char>)
    ensures
        join_fields(split_fields(s)) == s,
    decreases s.len(),
{
    if s.len() > 0 {
        let p = s.drop_last();
        let f = split_fields(p);
        lemma_join_split(p);
        lemma_split_nonempty(p);
        if s.last() == FIELD_SEPARATOR {
            assert(split_fields(s).drop_last() =~= f);
            assert(s =~= p + seq![FIELD_SEPARATOR] + Seq::<char>::empty());
        } else {
            let g = split_fields(s);
            if f.len() == 1 {
                assert(s =~= p.push(s.last()));
            } else {
                assert(g.drop_last() =~= f.drop_last());
                assert(join_fields(f) == join_fields(f.drop_last()) + seq![FIELD_SEPARATOR]
                    + f.last());
                assert(join_fields(g) == join_fields(g.drop_last()) + seq![FIELD_SEPARATOR]
                    + g.last());
                assert(s =~= p.push(s.last()));
                assert(s =~= join_fields(f.drop_last()) + seq![FIELD_SEPARATOR] + f.last().push(
                    s.last(),
                ));
            }
        }
    }
}

/// Splits `s` at each separator.
pub fn split_on_separator(s: &str) -> (r: Vec<String>)
    ensures
        views(r@) == split_fields(s@),
{
    let mut done: Vec<String> = Vec::new();
    let mut current = String::new();
    let ghost mut seen: Seq<char> = Seq::empty();
    for c in it: s.chars()
        invariant
            it.seq() == s@,
            seen == s@.take(it.index() as int),
            views(done@).push(current@) == split_fields(seen),
    {
        proof {
            lemma_split_nonempty(seen);
        }
        let ghost before = seen;
        proof {
            seen = seen.push(c);
            assert(seen.drop_last() == before);
        }
        if c == FIELD_SEPARATOR {
            done.push(current);
            current = String::new();
            assert(views(done@).push(current@) =~= split_fields(seen));
        } else {
            push_char(&mut current, c);
            assert(views(done@).push(current@) =~= split_fields(seen));
        }
    }
    assert(seen =~= s@);
    done.push(current);
    done
}

/// The fields of `fields` from `start` on, joined by the separator.
pub fn join_from(fields: &Vec<String>, start: usize) -> (r: String)
    requires
        start <= fields.len(),
    ensures
        r@ == join_fields(views(fields@).subrange(start as int, fields.len() as int)),
{
    let ghost all = views(fields@);
    let mut r = String::new();
    let mut i: usize = start;
    assert(all.subrange(start as int, start as int) =~= Seq::<Seq<char>>::empty());
    while i < fields.len()
        invariant
            start <= i <= fields.len(),
            all == views(fields@),
            r@ == join_fields(all.subrange(start as int, i as int)),
        decreases fields.len() - i,
    {
        let ghost next = all.subrange(start as int, i + 1);
        assert(next.drop_last() =~= all.subrange(start as int, i as int));
        if i > start {
            push_char(&mut r, FIELD_SEPARATOR);
        } else {
            assert(next =~= seq![all[i as int]]);
        }
        push_text(&mut r, fields[i].as_str());
        i = i + 1;
    }
    r
}

/// The word that stands for a field the datagram does not carry.
pub open spec fn unknown() -> Seq<char> {
    "Unknown"@
}

/// What decoding yields for `s`: type, sender name, content, and the ip field,
/// in that order. Decoding never fails; short input degrades to defaults.
pub open spec fn decoded(s: Seq<char>) -> (Seq<char>, Seq<char>, Seq<char>, Seq<char>) {
    let f = split_fields(s);
    if s.len() == 0 {
        (Seq::empty(), unknown(), Seq::empty(), unknown())
    } else if f.len() < 2 {
        (Seq::empty(), unknown(), s, unknown())
    } else if f.len() < 4 {
        (f[0], unknown(), join_fields(f.drop_first()), unknown())
    } else {
        (f[0], f[1], join_fields(f.subrange(3, f.len() as int)), f[2])
    }
}

/// `CHAT ~ name ~ ip ~ content`.
pub open spec fn chat_datagram(m: MessageView) -> Seq<char> {
    MSG_TYPE_CHAT@ + seq![FIELD_SEPARATOR] + encoded(m)
}

/// `tag ~ name ~ None`: a discovery probe or its answer.
pub open spec fn discovery_datagram(tag: Seq<char>, name: Seq<char>) -> Seq<char> {
    tag + seq![FIELD_SEPARATOR] + name + seq![FIELD_SEPARATOR] + UNUSED_FIELD@
}

/// The chat datagram that carries `m`.
pub fn encode_chat(m: &Message) -> (r: String)
    ensures
        r@ == chat_datagram(m@),
{
    let mut r = String::from_str(MSG_TYPE_CHAT);
    push_char(&mut r, FIELD_SEPARATOR);
    let body = m.encode_for_broadcast();
    push_text(&mut r, body.as_str());
    r
}

/// The discovery datagram of type `tag` that announces `name`.
pub fn encode_discovery(tag: &str, name: &str) -> (r: String)
    ensures
        r@ == discovery_datagram(tag@, name@),
{
    let mut r = String::from_str(tag);
    push_char(&mut r, FIELD_SEPARATOR);
    push_text(&mut r, name);
    push_char(&mut r, FIELD_SEPARATOR);
    push_text(&mut r, UNUSED_FIELD);
    r
}

} // verus!
