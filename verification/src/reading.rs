//! How the bytes of packets read: what a reader that knows nothing of a packet
//! finds in its bytes.

use vstd::prelude::*;
use vstd::utf8::encode_utf8;

use crate::packet::{Publish, QoS, Subscribe, SubscribeFilter, Unsubscribe};
use crate::wire::{
    be16, filters_bytes, framed, id_frame, publish_first, publish_rest, subscribe_rest, text, topics_bytes,
    unsubscribe_rest, varint, MAX_REMAINING,
};

verus! {

/// The number in the two bytes from `at` on.
pub open spec fn number_at(b: Seq<u8>, at: int) -> int {
    256 * b[at] + b[at + 1]
}

/// The length that bytes begin with: seven bits to the byte, up to the first
/// byte below 128.
pub open spec fn length_read(b: Seq<u8>) -> nat
    decreases b.len(),
{
    if b.len() == 0 {
        0
    } else if b[0] < 128 {
        b[0] as nat
    } else {
        (b[0] - 128) as nat + 128 * length_read(b.skip(1))
    }
}

/// How many bytes that length takes.
pub open spec fn length_size(b: Seq<u8>) -> nat
    decreases b.len(),
{
    if b.len() == 0 {
        0
    } else if b[0] < 128 {
        1
    } else {
        1 + length_size(b.skip(1))
    }
}

/// A packet id reads back from its two bytes.
pub proof fn law_numbers_read_back(k: u16)
    ensures
        be16(k as int).len() == 2,
        number_at(be16(k as int), 0) == k,
{
}

/// A length reads back, whatever follows it. One to four bytes are enough for
/// every length that is sent, and no longer one fits in four.
pub proof fn law_lengths_read_back(n: nat, tail: Seq<u8>)
    ensures
        length_read(varint(n) + tail) == n,
        length_size(varint(n) + tail) == varint(n).len(),
        varint(n).len() >= 1,
        varint(n).len() <= 1 <==> n < 128,
        varint(n).len() <= 2 <==> n < 16_384,
        varint(n).len() <= 3 <==> n < 2_097_152,
        varint(n).len() <= 4 <==> n <= MAX_REMAINING,
    decreases n,
{
    let b = varint(n) + tail;
    if n >= 128 {
        law_lengths_read_back(n / 128, tail);
        assert(b.skip(1) =~= varint(n / 128) + tail);
        assert(b[0] == n % 128 + 128);
        reveal_with_fuel(varint, 5);
    }
}

/// A packet reads back from what is sent, whatever follows it: its first byte,
/// its length and the rest.
pub proof fn law_packets_read_back(first: u8, rest: Seq<u8>, tail: Seq<u8>)
    ensures
        ({
            let b = framed(first, rest) + tail;
            let at = 1 + length_size(b.skip(1)) as int;
            &&& b[0] == first
            &&& length_read(b.skip(1)) == rest.len()
            &&& at + rest.len() + tail.len() == b.len()
            &&& b.subrange(at, at + rest.len()) == rest
            &&& b.skip(at + rest.len()) == tail
        }),
{
    let b = framed(first, rest) + tail;
    law_lengths_read_back(rest.len(), rest + tail);
    assert(b.skip(1) =~= varint(rest.len()) + (rest + tail));
}

/// What is sent can be taken apart in one way only.
pub proof fn law_packets_are_told_apart(
    first: u8,
    rest: Seq<u8>,
    tail: Seq<u8>,
    other_first: u8,
    other_rest: Seq<u8>,
    other_tail: Seq<u8>,
)
    requires
        framed(first, rest) + tail == framed(other_first, other_rest) + other_tail,
    ensures
        first == other_first,
        rest == other_rest,
        tail == other_tail,
{
    law_packets_read_back(first, rest, tail);
    law_packets_read_back(other_first, other_rest, other_tail);
}

/// A packet that holds only a packet id takes four bytes, of which the last two
/// are the id.
pub proof fn law_ids_read_back(first: u8, k: u16)
    ensures
        id_frame(first, k).len() == 4,
        id_frame(first, k)[0] == first,
        id_frame(first, k)[1] == 2,
        number_at(id_frame(first, k), 2) == k,
{
    assert(varint(2) =~= seq![2u8]);
}

/// A string is its length, as far as two bytes can tell it, and its UTF-8 bytes.
pub proof fn law_text_reads_back(s: Seq<char>)
    ensures
        text(s).len() == 2 + encode_utf8(s).len(),
        number_at(text(s), 0) == encode_utf8(s).len() as int % 65_536,
        text(s).skip(2) == encode_utf8(s),
{
    let n = encode_utf8(s).len() as int;
    assert((n / 256) % 256 * 256 + n % 256 == n % 65_536);
    assert(text(s).skip(2) =~= encode_utf8(s));
}

/// The first byte of a publish tells that it is one, its level and its flags.
pub proof fn law_publish_flags_read_back(p: Publish)
    ensures
        publish_first(p) / 16 == 3,
        (publish_first(p) / 8) % 2 == 1 <==> p.dup,
        (publish_first(p) / 2) % 4 == 0 <==> p.qos is AtMostOnce,
        (publish_first(p) / 2) % 4 == 1 <==> p.qos is AtLeastOnce,
        (publish_first(p) / 2) % 4 == 2 <==> p.qos is ExactlyOnce,
        publish_first(p) % 2 == 1 <==> p.retain,
{
}

/// The rest of a publish is its topic, above QoS 0 its packet id, and its
/// payload.
pub proof fn law_publish_reads_back(p: Publish)
    ensures
        ({
            let b = publish_rest(p);
            let topic = encode_utf8(p.topic@);
            let at = 2 + topic.len() as int;
            &&& number_at(b, 0) == topic.len() as int % 65_536
            &&& b.subrange(2, at) == topic
            &&& if p.qos is AtMostOnce {
                &&& b.len() == at + p.payload@.len()
                &&& b.skip(at) == p.payload@
            } else {
                &&& b.len() == at + 2 + p.payload@.len()
                &&& number_at(b, at) == p.pkid
                &&& b.skip(at + 2) == p.payload@
            }
        }),
{
    let b = publish_rest(p);
    let topic = encode_utf8(p.topic@);
    let at = 2 + topic.len() as int;
    law_text_reads_back(p.topic@);
    assert(b.subrange(2, at) =~= topic);
    if p.qos is AtMostOnce {
        assert(b.skip(at) =~= p.payload@);
    } else {
        assert(b.skip(at + 2) =~= p.payload@);
    }
}

/// The rest of a subscription is its packet id and its filters, one after the
/// other, each a string and a byte for its level.
pub proof fn law_subscriptions_read_back(s: Subscribe, a: Seq<SubscribeFilter>, b: Seq<SubscribeFilter>)
    ensures
        subscribe_rest(s).len() == 2 + filters_bytes(s.filters@).len(),
        number_at(subscribe_rest(s), 0) == s.pkid,
        subscribe_rest(s).skip(2) == filters_bytes(s.filters@),
        filters_bytes(a + b) == filters_bytes(a) + filters_bytes(b),
        a.len() == 0 ==> filters_bytes(a).len() == 0,
        a.len() == 1 ==> {
            let one = filters_bytes(a);
            let path = encode_utf8(a[0].path@);
            &&& one.len() == 3 + path.len()
            &&& number_at(one, 0) == path.len() as int % 65_536
            &&& one.subrange(2, 2 + path.len() as int) == path
            &&& one.last() == (match a[0].qos {
                QoS::AtMostOnce => 0u8,
                QoS::AtLeastOnce => 1u8,
                QoS::ExactlyOnce => 2u8,
            })
        },
    decreases b.len(),
{
    assert(subscribe_rest(s).skip(2) =~= filters_bytes(s.filters@));
    if a.len() == 1 {
        law_text_reads_back(a[0].path@);
        assert(filters_bytes(a.drop_last()) =~= seq![]);
        assert(filters_bytes(a).subrange(2, 2 + encode_utf8(a[0].path@).len() as int) =~= encode_utf8(a[0].path@));
    }
    if b.len() == 0 {
        assert(a + b =~= a);
        assert(filters_bytes(a) + filters_bytes(b) =~= filters_bytes(a));
    } else {
        law_subscriptions_read_back(s, a, b.drop_last());
        assert((a + b).drop_last() =~= a + b.drop_last());
        assert(filters_bytes(a + b) =~= filters_bytes(a) + filters_bytes(b));
    }
}

/// The rest of an unsubscribe request is its packet id and its topics, one
/// after the other, each a string.
pub proof fn law_unsubscriptions_read_back(u: Unsubscribe, a: Seq<String>, b: Seq<String>)
    ensures
        unsubscribe_rest(u).len() == 2 + topics_bytes(u.topics@).len(),
        number_at(unsubscribe_rest(u), 0) == u.pkid,
        unsubscribe_rest(u).skip(2) == topics_bytes(u.topics@),
        topics_bytes(a + b) == topics_bytes(a) + topics_bytes(b),
        a.len() == 0 ==> topics_bytes(a).len() == 0,
        a.len() == 1 ==> {
            let one = topics_bytes(a);
            let topic = encode_utf8(a[0]@);
            &&& one.len() == 2 + topic.len()
            &&& number_at(one, 0) == topic.len() as int % 65_536
            &&& one.skip(2) == topic
        },
    decreases b.len(),
{
    assert(unsubscribe_rest(u).skip(2) =~= topics_bytes(u.topics@));
    if a.len() == 1 {
        law_text_reads_back(a[0]@);
        assert(topics_bytes(a.drop_last()) =~= seq![]);
        assert(topics_bytes(a) =~= text(a[0]@));
    }
    if b.len() == 0 {
        assert(a + b =~= a);
        assert(topics_bytes(a) + topics_bytes(b) =~= topics_bytes(a));
    } else {
        law_unsubscriptions_read_back(u, a, b.drop_last());
        assert((a + b).drop_last() =~= a + b.drop_last());
        assert(topics_bytes(a + b) =~= topics_bytes(a) + topics_bytes(b));
    }
}

} // verus!
