//! The bytes of the packets that a client sends, and the calls that put them
//! into a write buffer.
//!
//! The encoders belong to the crate `mqttbytes`, the buffer to the crate
//! `bytes`. What is claimed of them stands in the contracts below and is not
//! proved here. As for `Vec`, running out of memory is outside the contracts.

use bytes::BytesMut;
use vstd::prelude::*;
use vstd::utf8::encode_utf8;

use crate::packet::{Publish, QoS, Subscribe, SubscribeFilter, Unsubscribe};

verus! {

/// The growable byte buffer of the crate `bytes`.
#[verifier::external_type_specification]
#[verifier::external_body]
pub struct ExBytesMut(BytesMut);

/// The error of the crate `mqttbytes`.
#[verifier::external_type_specification]
#[verifier::external_body]
pub struct ExCodecError(mqttbytes::Error);

/// The bytes that a buffer holds, oldest first.
pub uninterp spec fn buffered(buffer: BytesMut) -> Seq<u8>;

/// The largest remaining length that the four bytes set aside for it can hold.
pub const MAX_REMAINING: usize = 268_435_455;

/// A 16 bit number, high byte first. Higher bits are lost.
pub open spec fn be16(n: int) -> Seq<u8> {
    seq![((n / 256) % 256) as u8, (n % 256) as u8]
}

/// A remaining length, seven bits to the byte, low bits first; the top bit
/// says that another byte follows.
pub open spec fn varint(n: nat) -> Seq<u8>
    decreases n,
{
    if n < 128 {
        seq![n as u8]
    } else {
        seq![(n % 128 + 128) as u8] + varint(n / 128)
    }
}

/// A string: the number of its UTF-8 bytes, then the bytes. The number has 16
/// bits, so that of a longer string is cut down.
pub open spec fn text(s: Seq<char>) -> Seq<u8> {
    be16(encode_utf8(s).len() as int) + encode_utf8(s)
}

/// A packet: the first byte, the length of the rest, the rest.
pub open spec fn framed(first: u8, rest: Seq<u8>) -> Seq<u8> {
    seq![first] + varint(rest.len()) + rest
}

/// A packet that holds nothing but a packet id.
pub open spec fn id_frame(first: u8, pkid: u16) -> Seq<u8> {
    framed(first, be16(pkid as int))
}

/// The first byte of a publish: its type and flags.
pub open spec fn publish_first(p: Publish) -> u8 {
    (0x30 + (if p.dup { 8int } else { 0 }) + 2 * p.qos.bits() + (if p.retain { 1int } else { 0 })) as u8
}

/// What follows the fixed header of a publish. Only QoS 1 and 2 carry an id.
pub open spec fn publish_rest(p: Publish) -> Seq<u8> {
    text(p.topic@) + (if p.qos == QoS::AtMostOnce { seq![] } else { be16(p.pkid as int) }) + p.payload@
}

/// What follows the packet id of a subscription.
pub open spec fn filters_bytes(filters: Seq<SubscribeFilter>) -> Seq<u8>
    decreases filters.len(),
{
    if filters.len() == 0 {
        seq![]
    } else {
        filters_bytes(filters.drop_last()) + text(filters.last().path@).push(filters.last().qos.bits() as u8)
    }
}

/// What follows the fixed header of a subscription.
pub open spec fn subscribe_rest(s: Subscribe) -> Seq<u8> {
    be16(s.pkid as int) + filters_bytes(s.filters@)
}

/// What follows the packet id of an unsubscribe request.
pub open spec fn topics_bytes(topics: Seq<String>) -> Seq<u8>
    decreases topics.len(),
{
    if topics.len() == 0 {
        seq![]
    } else {
        topics_bytes(topics.drop_last()) + text(topics.last()@)
    }
}

/// What follows the fixed header of an unsubscribe request.
pub open spec fn unsubscribe_rest(u: Unsubscribe) -> Seq<u8> {
    be16(u.pkid as int) + topics_bytes(u.topics@)
}

/// What a buffer holds after an encoder was given a packet: the whole packet,
/// or only its first byte where the rest is too long for its length to be told.
pub open spec fn after_write(before: Seq<u8>, first: u8, rest: Seq<u8>) -> Seq<u8> {
    if rest.len() <= MAX_REMAINING {
        before + framed(first, rest)
    } else {
        before.push(first)
    }
}

/// A clone of a buffer holds the same bytes.
pub assume_specification[ <BytesMut as Clone>::clone ](buffer: &BytesMut) -> (r: BytesMut)
    ensures
        buffered(r) == buffered(*buffer),
;

/// Calls `bytes::BytesMut::with_capacity`: the new buffer holds nothing.
#[verifier::external_body]
pub(crate) fn new_buffer(capacity: usize) -> (buffer: BytesMut)
    requires
        capacity <= isize::MAX,
    ensures
        buffered(buffer) == Seq::<u8>::empty(),
{
    BytesMut::with_capacity(capacity)
}

/// Calls `mqttbytes::v4::Publish::write`, which appends the packet to the
/// buffer and returns how many bytes it took. A packet that is too long is
/// refused once its first byte is written. A packet id of 0 is refused too, but
/// only after part of the packet is written; that case is left out here. So is
/// a packet whose length cannot be counted.
#[verifier::external_body]
pub(crate) fn write_publish(publish: &Publish, buffer: &mut BytesMut) -> (r: Result<usize, mqttbytes::Error>)
    requires
        publish.qos != QoS::AtMostOnce ==> publish.pkid != 0,
        publish_rest(*publish).len() <= usize::MAX,
    ensures
        r is Ok <==> publish_rest(*publish).len() <= MAX_REMAINING,
        r matches Ok(n) ==> n == framed(publish_first(*publish), publish_rest(*publish)).len(),
        buffered(*final(buffer)) == after_write(
            buffered(*old(buffer)),
            publish_first(*publish),
            publish_rest(*publish),
        ),
{
    let qos = match publish.qos {
        QoS::AtMostOnce => mqttbytes::QoS::AtMostOnce,
        QoS::AtLeastOnce => mqttbytes::QoS::AtLeastOnce,
        QoS::ExactlyOnce => mqttbytes::QoS::ExactlyOnce,
    };
    let mut packet = mqttbytes::v4::Publish::new(publish.topic.as_str(), qos, publish.payload.as_slice());
    packet.dup = publish.dup;
    packet.retain = publish.retain;
    packet.pkid = publish.pkid;
    packet.write(buffer)
}

/// Calls `mqttbytes::v4::Subscribe::write`, which appends the packet to the
/// buffer and returns how many bytes it took. A packet that is too long is
/// refused once its first byte is written. One whose length cannot be counted
/// is left out.
#[verifier::external_body]
pub(crate) fn write_subscribe(subscribe: &Subscribe, buffer: &mut BytesMut) -> (r: Result<usize, mqttbytes::Error>)
    requires
        subscribe_rest(*subscribe).len() <= usize::MAX,
    ensures
        r is Ok <==> subscribe_rest(*subscribe).len() <= MAX_REMAINING,
        r matches Ok(n) ==> n == framed(0x82, subscribe_rest(*subscribe)).len(),
        buffered(*final(buffer)) == after_write(buffered(*old(buffer)), 0x82, subscribe_rest(*subscribe)),
{
    let mut packet = mqttbytes::v4::Subscribe::empty_subscribe();
    packet.pkid = subscribe.pkid;
    for filter in subscribe.filters.iter() {
        let qos = match filter.qos {
            QoS::AtMostOnce => mqttbytes::QoS::AtMostOnce,
            QoS::AtLeastOnce => mqttbytes::QoS::AtLeastOnce,
            QoS::ExactlyOnce => mqttbytes::QoS::ExactlyOnce,
        };
        packet.add(filter.path.clone(), qos);
    }
    packet.write(buffer)
}

/// Calls `mqttbytes::v4::Unsubscribe::write`, which appends the packet to the
/// buffer and returns how many bytes it took. A packet that is too long is
/// refused once its first byte is written. One whose length cannot be counted
/// is left out.
#[verifier::external_body]
pub(crate) fn write_unsubscribe(unsubscribe: &Unsubscribe, buffer: &mut BytesMut) -> (r: Result<
    usize,
    mqttbytes::Error,
>)
    requires
        unsubscribe_rest(*unsubscribe).len() <= usize::MAX,
    ensures
        r is Ok <==> unsubscribe_rest(*unsubscribe).len() <= MAX_REMAINING,
        r matches Ok(n) ==> n == framed(0xA2, unsubscribe_rest(*unsubscribe)).len(),
        buffered(*final(buffer)) == after_write(buffered(*old(buffer)), 0xA2, unsubscribe_rest(*unsubscribe)),
{
    let packet = mqttbytes::v4::Unsubscribe { pkid: unsubscribe.pkid, topics: unsubscribe.topics.clone() };
    packet.write(buffer)
}

/// Calls `mqttbytes::v4::PubAck::write`, which appends four bytes and succeeds.
#[verifier::external_body]
pub(crate) fn write_puback(pkid: u16, buffer: &mut BytesMut) -> (r: Result<usize, mqttbytes::Error>)
    ensures
        r is Ok && r->Ok_0 == 4,
        buffered(*final(buffer)) == buffered(*old(buffer)) + id_frame(0x40, pkid),
{
    mqttbytes::v4::PubAck::new(pkid).write(buffer)
}

/// Calls `mqttbytes::v4::PubRec::write`, which appends four bytes and succeeds.
#[verifier::external_body]
pub(crate) fn write_pubrec(pkid: u16, buffer: &mut BytesMut) -> (r: Result<usize, mqttbytes::Error>)
    ensures
        r is Ok && r->Ok_0 == 4,
        buffered(*final(buffer)) == buffered(*old(buffer)) + id_frame(0x50, pkid),
{
    mqttbytes::v4::PubRec::new(pkid).write(buffer)
}

/// Calls `mqttbytes::v4::PubRel::write`, which appends four bytes and succeeds.
#[verifier::external_body]
pub(crate) fn write_pubrel(pkid: u16, buffer: &mut BytesMut) -> (r: Result<usize, mqttbytes::Error>)
    ensures
        r is Ok && r->Ok_0 == 4,
        buffered(*final(buffer)) == buffered(*old(buffer)) + id_frame(0x62, pkid),
{
    mqttbytes::v4::PubRel::new(pkid).write(buffer)
}

/// Calls `mqttbytes::v4::PubComp::write`, which appends four bytes and succeeds.
#[verifier::external_body]
pub(crate) fn write_pubcomp(pkid: u16, buffer: &mut BytesMut) -> (r: Result<usize, mqttbytes::Error>)
    ensures
        r is Ok && r->Ok_0 == 4,
        buffered(*final(buffer)) == buffered(*old(buffer)) + id_frame(0x70, pkid),
{
    mqttbytes::v4::PubComp::new(pkid).write(buffer)
}

/// Calls `mqttbytes::v4::PingReq::write`, which appends two bytes and succeeds.
#[verifier::external_body]
pub(crate) fn write_pingreq(buffer: &mut BytesMut) -> (r: Result<usize, mqttbytes::Error>)
    ensures
        r is Ok && r->Ok_0 == 2,
        buffered(*final(buffer)) == buffered(*old(buffer)) + framed(0xC0, seq![]),
{
    mqttbytes::v4::PingReq.write(buffer)
}

/// Calls `mqttbytes::v4::Disconnect::write`, which appends two bytes and succeeds.
#[verifier::external_body]
pub(crate) fn write_disconnect(buffer: &mut BytesMut) -> (r: Result<usize, mqttbytes::Error>)
    ensures
        r is Ok && r->Ok_0 == 2,
        buffered(*final(buffer)) == buffered(*old(buffer)) + framed(0xE0, seq![]),
{
    mqttbytes::v4::Disconnect.write(buffer)
}

/// The remaining length of a publish, where it can be counted.
pub(crate) fn publish_len(publish: &Publish) -> (r: Option<usize>)
    ensures
        match r {
            Some(n) => n == publish_rest(*publish).len(),
            None => publish_rest(*publish).len() > usize::MAX,
        },
{
    let topic: usize = publish.topic.as_str().as_bytes().len();
    let fixed: usize = match publish.qos {
        QoS::AtMostOnce => 2,
        _ => 4,
    };
    match topic.checked_add(publish.payload.len()) {
        Some(n) => n.checked_add(fixed),
        None => None,
    }
}

/// The remaining length of a subscription, where it can be counted.
pub(crate) fn subscribe_len(subscribe: &Subscribe) -> (r: Option<usize>)
    ensures
        match r {
            Some(n) => n == subscribe_rest(*subscribe).len(),
            None => subscribe_rest(*subscribe).len() > usize::MAX,
        },
{
    let ghost all = subscribe.filters@;
    let n: usize = subscribe.filters.len();
    let mut total: usize = 2;
    let mut i: usize = 0;
    while i < n
        invariant
            all == subscribe.filters@,
            n == all.len(),
            0 <= i <= n,
            total == 2 + filters_bytes(all.take(i as int)).len(),
        decreases n - i,
    {
        proof {
            assert(all.take(i + 1).drop_last() =~= all.take(i as int));
            lemma_filters_bytes_prefix(all, i + 1);
        }
        let path: usize = subscribe.filters[i].path.as_str().as_bytes().len();
        total = match path.checked_add(3) {
            Some(m) => match total.checked_add(m) {
                Some(sum) => sum,
                None => return None,
            },
            None => return None,
        };
        i = i + 1;
    }
    assert(all.take(n as int) =~= all);
    Some(total)
}

/// The remaining length of an unsubscribe request, where it can be counted.
pub(crate) fn unsubscribe_len(unsubscribe: &Unsubscribe) -> (r: Option<usize>)
    ensures
        match r {
            Some(n) => n == unsubscribe_rest(*unsubscribe).len(),
            None => unsubscribe_rest(*unsubscribe).len() > usize::MAX,
        },
{
    let ghost all = unsubscribe.topics@;
    let n: usize = unsubscribe.topics.len();
    let mut total: usize = 2;
    let mut i: usize = 0;
    while i < n
        invariant
            all == unsubscribe.topics@,
            n == all.len(),
            0 <= i <= n,
            total == 2 + topics_bytes(all.take(i as int)).len(),
        decreases n - i,
    {
        proof {
            assert(all.take(i + 1).drop_last() =~= all.take(i as int));
            lemma_topics_bytes_prefix(all, i + 1);
        }
        let topic: usize = unsubscribe.topics[i].as_str().as_bytes().len();
        total = match topic.checked_add(2) {
            Some(m) => match total.checked_add(m) {
                Some(sum) => sum,
                None => return None,
            },
            None => return None,
        };
        i = i + 1;
    }
    assert(all.take(n as int) =~= all);
    Some(total)
}

/// Fewer filters take no more bytes.
proof fn lemma_filters_bytes_prefix(filters: Seq<SubscribeFilter>, i: int)
    requires
        0 <= i <= filters.len(),
    ensures
        filters_bytes(filters.take(i)).len() <= filters_bytes(filters).len(),
    decreases filters.len(),
{
    if i == filters.len() {
        assert(filters.take(i) =~= filters);
    } else {
        lemma_filters_bytes_prefix(filters.drop_last(), i);
        assert(filters.drop_last().take(i) =~= filters.take(i));
    }
}

/// Fewer topics take no more bytes.
proof fn lemma_topics_bytes_prefix(topics: Seq<String>, i: int)
    requires
        0 <= i <= topics.len(),
    ensures
        topics_bytes(topics.take(i)).len() <= topics_bytes(topics).len(),
    decreases topics.len(),
{
    if i == topics.len() {
        assert(topics.take(i) =~= topics);
    } else {
        lemma_topics_bytes_prefix(topics.drop_last(), i);
        assert(topics.drop_last().take(i) =~= topics.take(i));
    }
}

} // verus!
