//! SUBSCRIBE, UNSUBSCRIBE and SUBACK: a packet identifier followed by a list
//! that runs to the end of the packet.
use bytes::BytesMut;
use vstd::prelude::*;
use vstd::utf8::encode_utf8;

use crate::ack::GeneralVariableHeader;
use crate::buffer::buf_view;
use crate::coder::{
    append_bytes, be16, fits_string, lemma_parsed_string, lemma_string_round_trip,
    lemma_u16_round_trip, mqtt_string, parse_mqtt_string, parse_u16, read_mqtt_string, read_u16,
    tail, write_mqtt_bytes, write_u16,
};
use crate::error::ProtoError;
use crate::fixed_header::{plain_header, with_length, with_lengths, FixedHeader};
use crate::frame::{
    decode_frame, encode_frame, frame_bytes, lemma_frame_round_trip,
    parse_frame,
};
use crate::topic::{
    lemma_topics_bytes_push, lemma_topics_round_trip, parse_topics, topic_wf,
    topics_bytes, topics_len_of, Topic, TopicView,
};
use crate::varint::MAX_REMAINING_LENGTH;
use crate::{MessageType, QoS};

verus! {

/// A SUBSCRIBE packet.
#[derive(Debug, Clone, PartialEq, Eq)]
pub struct Subscribe {
    pub fixed_header: FixedHeader,
    pub variable_header: GeneralVariableHeader,
    pub topices: Vec<Topic>,
}

/// The value of a SUBSCRIBE that the contracts speak of.
pub struct SubscribeView {
    pub fixed_header: FixedHeader,
    pub message_id: usize,
    pub topics: Seq<TopicView>,
}

impl View for Subscribe {
    type V = SubscribeView;

    open spec fn view(&self) -> SubscribeView {
        SubscribeView {
            fixed_header: self.fixed_header,
            message_id: self.variable_header.message_id,
            topics: self.topices@.map_values(|t: Topic| t@),
        }
    }
}

/// The body of a SUBSCRIBE: the identifier, then the filters.
pub open spec fn subscribe_body(m: SubscribeView) -> Seq<u8> {
    be16(m.message_id as u16) + topics_bytes(m.topics)
}

/// The wire form of a SUBSCRIBE.
pub open spec fn subscribe_bytes(m: SubscribeView) -> Seq<u8> {
    frame_bytes(plain_header(MessageType::SUBSCRIBE), subscribe_body(m))
}

/// Why a SUBSCRIBE cannot be written, if it cannot.
pub open spec fn subscribe_encode_error(m: SubscribeView) -> Option<ProtoError> {
    if m.message_id > 65535 || exists|i: int| 0 <= i < m.topics.len() && !fits_string(#[trigger] m.topics[i].name) {
        Some(ProtoError::EncodeVariableHeaderError)
    } else if subscribe_body(m).len() > MAX_REMAINING_LENGTH {
        Some(ProtoError::OutOfMaxRemainingLength(subscribe_body(m).len() as usize))
    } else {
        None
    }
}

/// Reads a SUBSCRIBE from the front of `s`.
pub open spec fn parse_subscribe(s: Seq<u8>) -> Result<SubscribeView, ProtoError> {
    match parse_frame(s) {
        Ok((h, body)) => if h.message_type != MessageType::SUBSCRIBE {
            Err(ProtoError::NotKnow)
        } else {
            match parse_u16(body) {
                Ok((id, r)) => match parse_topics(r) {
                    Ok(ts) => Ok(SubscribeView { fixed_header: h, message_id: id as usize, topics: ts }),
                    Err(e) => Err(e),
                },
                Err(_) => Err(ProtoError::DecodeGeneralVariableHeaderError),
            }
        },
        Err(e) => Err(e),
    }
}

/// Whether a SUBSCRIBE is one that decoding gives back.
pub open spec fn subscribe_wf(m: SubscribeView) -> bool {
    &&& subscribe_encode_error(m) is None
    &&& m.fixed_header == with_length(plain_header(MessageType::SUBSCRIBE), subscribe_body(m).len())
    &&& forall|i: int| 0 <= i < m.topics.len() ==> topic_wf(#[trigger] m.topics[i])
}

/// A well-formed SUBSCRIBE is read back from its wire form, its filters in
/// their order.
pub proof fn lemma_subscribe_round_trip(m: SubscribeView, rest: Seq<u8>)
    requires
        subscribe_wf(m),
    ensures
        parse_subscribe(subscribe_bytes(m) + rest) == Ok::<SubscribeView, ProtoError>(m),
{
    let body = subscribe_body(m);
    lemma_frame_round_trip(plain_header(MessageType::SUBSCRIBE), body, rest);
    lemma_u16_round_trip(m.message_id as u16, topics_bytes(m.topics));
    lemma_topics_round_trip(m.topics);
}

impl Subscribe {
    /// A SUBSCRIBE whose lengths are set from its filters: two bytes of
    /// identifier, and each filter's name length plus three. A sum past the
    /// largest remaining length is kept as one more than that largest value.
    pub fn new(fixed_header: FixedHeader, variable_header: GeneralVariableHeader, topices: Vec<Topic>) -> (r: Self)
        ensures
            topics_len_of(topices@.map_values(|t: Topic| t@)) + 2 <= MAX_REMAINING_LENGTH ==> r.fixed_header
                == with_length(fixed_header, topics_len_of(topices@.map_values(|t: Topic| t@)) + 2),
            topics_len_of(topices@.map_values(|t: Topic| t@)) + 2 > MAX_REMAINING_LENGTH
                ==> r.fixed_header.remaining_length > MAX_REMAINING_LENGTH,
            r.fixed_header.message_type == fixed_header.message_type,
            r.variable_header == variable_header,
            r.topices == topices,
    {
        let mut s = Self { fixed_header, variable_header, topices };
        let len = s.topics_len();
        let rl = if len > MAX_REMAINING_LENGTH - 2 { MAX_REMAINING_LENGTH + 1 } else { len + 2 };
        s.fixed_header = with_lengths(s.fixed_header, rl);
        s
    }

    /// The sum over the filters of the name length plus three, or one more
    /// than the largest remaining length if the sum is larger than that.
    fn topics_len(&self) -> (r: usize)
        ensures
            topics_len_of(self@.topics) <= MAX_REMAINING_LENGTH ==> r == topics_len_of(self@.topics),
            topics_len_of(self@.topics) > MAX_REMAINING_LENGTH ==> r == MAX_REMAINING_LENGTH + 1,
    {
        let mut len: usize = 0;
        let mut i: usize = 0;
        let ghost ts = self@.topics;
        while i < self.topices.len()
            invariant
                i <= self.topices@.len(),
                ts == self@.topics,
                ts.len() == self.topices@.len(),
                len == topics_len_of(ts.take(i as int)),
                len <= MAX_REMAINING_LENGTH,
            decreases self.topices@.len() - i,
        {
            proof {
                assert(ts.take(i + 1).drop_last() =~= ts.take(i as int));
                lemma_topics_len_prefix(ts, i + 1);
            }
            let n = self.topices[i].name_len;
            if n > MAX_REMAINING_LENGTH || len + n + 3 > MAX_REMAINING_LENGTH {
                return MAX_REMAINING_LENGTH + 1;
            }
            len = len + n + 3;
            i = i + 1;
        }
        assert(ts.take(i as int) =~= ts);
        len
    }

    pub fn fixed_header(&self) -> (r: FixedHeader)
        ensures
            r == self.fixed_header,
    {
        self.fixed_header
    }

    pub fn variable_header(&self) -> (r: GeneralVariableHeader)
        ensures
            r == self.variable_header,
    {
        self.variable_header
    }

    pub fn topices(&self) -> (r: Vec<Topic>)
        ensures
            r@.map_values(|t: Topic| t@) == self@.topics,
    {
        let mut out: Vec<Topic> = Vec::new();
        let mut i: usize = 0;
        while i < self.topices.len()
            invariant
                i <= self.topices@.len(),
                out@.map_values(|t: Topic| t@) == self@.topics.take(i as int),
            decreases self.topices@.len() - i,
        {
            let t = &self.topices[i];
            let ghost before = out@.map_values(|t: Topic| t@);
            let c = Topic { name: t.name.clone(), qos: t.qos, name_len: t.name_len };
            assert(c@ == self@.topics[i as int]);
            out.push(c);
            assert(out@.map_values(|t: Topic| t@) =~= before.push(c@));
            assert(self@.topics.take(i + 1) =~= self@.topics.take(i as int).push(c@));
            i = i + 1;
        }
        assert(self@.topics.take(i as int) =~= self@.topics);
        out
    }

    /// Writes the packet, its remaining length computed from its body. A
    /// packet that cannot be written leaves `buffer` as it was.
    pub fn encode(&self, buffer: &mut BytesMut) -> (r: Result<usize, ProtoError>)
        ensures
            match subscribe_encode_error(self@) {
                Some(e) => r == Err::<usize, ProtoError>(e) && buf_view(*final(buffer)) == buf_view(
                    *old(buffer),
                ),
                None => r == Ok::<usize, ProtoError>(subscribe_bytes(self@).len() as usize) && buf_view(
                    *final(buffer),
                ) == buf_view(*old(buffer)) + subscribe_bytes(self@),
            },
    {
        let ghost m = self@;
        if self.variable_header.message_id > 65535 {
            return Err(ProtoError::EncodeVariableHeaderError);
        }
        let mut body: Vec<u8> = Vec::new();
        write_u16(&mut body, self.variable_header.message_id as u16);
        let mut i: usize = 0;
        while i < self.topices.len()
            invariant
                i <= self.topices@.len(),
                m == self@,
                m.topics.len() == self.topices@.len(),
                m.message_id <= 65535,
                body@ == be16(m.message_id as u16) + topics_bytes(m.topics.take(i as int)),
                forall|j: int| 0 <= j < i ==> fits_string(#[trigger] m.topics[j].name),
            decreases self.topices@.len() - i,
        {
            match self.topices[i].encode(&mut body) {
                Ok(_) => {},
                Err(e) => {
                    assert(!fits_string(m.topics[i as int].name));
                    return Err(e);
                },
            }
            proof {
                assert(m.topics.take(i + 1) =~= m.topics.take(i as int).push(m.topics[i as int]));
                lemma_topics_bytes_push(m.topics.take(i as int), m.topics[i as int]);
            }
            i = i + 1;
        }
        proof {
            assert(m.topics.take(i as int) =~= m.topics);
        }
        if body.len() > MAX_REMAINING_LENGTH {
            return Err(ProtoError::OutOfMaxRemainingLength(body.len()));
        }
        let header = FixedHeader {
            message_type: MessageType::SUBSCRIBE,
            dup: Some(false),
            qos: None,
            retain: Some(false),
            remaining_length: 0,
            len: 0,
        };
        proof {
            assert(crate::fixed_header::header_bytes(header, body@.len()) == crate::fixed_header::header_bytes(plain_header(MessageType::SUBSCRIBE), body@.len()));
        }
        encode_frame(&header, body.as_slice(), buffer)
    }

    /// Reads the SUBSCRIBE at the front of `stream`.
    pub fn decode(stream: &[u8]) -> (r: Result<Self, ProtoError>)
        ensures
            match parse_subscribe(stream@) {
                Ok(m) => r matches Ok(p) && p@ == m,
                Err(e) => r matches Err(x) && x == e,
            },
    {
        let (h, start, end) = decode_frame(stream)?;
        if h.message_type != MessageType::SUBSCRIBE {
            return Err(ProtoError::NotKnow);
        }
        let body = vstd::slice::slice_subrange(stream, start, end);
        proof {
            assert(tail(body@, 0) =~= body@);
        }
        let (id, p) = match read_u16(body, 0) {
            Ok(x) => x,
            Err(_) => return Err(ProtoError::DecodeGeneralVariableHeaderError),
        };
        let topices = Topic::read_topics(body, p)?;
        Ok(Subscribe { fixed_header: h, variable_header: GeneralVariableHeader::new(id as usize), topices })
    }
}

proof fn lemma_topics_len_prefix(ts: Seq<TopicView>, n: int)
    requires
        0 <= n <= ts.len(),
    ensures
        topics_len_of(ts.take(n)) <= topics_len_of(ts),
    decreases ts.len() - n,
{
    if n < ts.len() {
        lemma_topics_len_prefix(ts, n + 1);
        assert(ts.take(n + 1).drop_last() =~= ts.take(n));
    } else {
        assert(ts.take(n) =~= ts);
    }
}

/// The wire form of a list of strings, one after another.
pub open spec fn strings_bytes(ss: Seq<Seq<char>>) -> Seq<u8>
    decreases ss.len(),
{
    if ss.len() == 0 {
        Seq::empty()
    } else {
        mqtt_string(ss[0]) + strings_bytes(ss.drop_first())
    }
}

/// Reads length-prefixed strings until `s` is used up: none from an empty
/// `s`, and an error, not a shorter list, if one of them is malformed.
pub open spec fn parse_strings(s: Seq<u8>) -> Result<Seq<Seq<char>>, ProtoError>
    decreases s.len(),
{
    if s.len() == 0 {
        Ok(Seq::empty())
    } else {
        match parse_mqtt_string(s) {
            Ok((c, r)) => if r.len() < s.len() {
                match parse_strings(r) {
                    Ok(cs) => Ok(seq![c] + cs),
                    Err(e) => Err(e),
                }
            } else {
                Err(ProtoError::NotKnow)
            },
            Err(e) => Err(e),
        }
    }
}

/// Strings that fit their length prefixes are read back from their wire
/// form, in order.
pub proof fn lemma_strings_round_trip(ss: Seq<Seq<char>>)
    requires
        forall|i: int| 0 <= i < ss.len() ==> fits_string(#[trigger] ss[i]),
    ensures
        parse_strings(strings_bytes(ss)) == Ok::<Seq<Seq<char>>, ProtoError>(ss),
    decreases ss.len(),
{
    if ss.len() > 0 {
        let rest = strings_bytes(ss.drop_first());
        assert(fits_string(ss[0]));
        lemma_string_round_trip(ss[0], rest);
        assert(forall|i: int| 0 <= i < ss.drop_first().len() ==> ss.drop_first()[i] == ss[i + 1]);
        lemma_strings_round_trip(ss.drop_first());
        assert(seq![ss[0]] + ss.drop_first() =~= ss);
        assert(strings_bytes(ss).len() > rest.len());
    } else {
        assert(ss =~= Seq::<Seq<char>>::empty());
    }
}

/// A topic-name list ends exactly where its bytes end: no bytes give no
/// names, and names followed by a dangling length prefix give an error, not
/// the names before it.
pub proof fn lemma_string_list_termination(ss: Seq<Seq<char>>, d: Seq<u8>)
    requires
        forall|i: int| 0 <= i < ss.len() ==> fits_string(#[trigger] ss[i]),
        crate::topic::dangling_prefix(d),
    ensures
        parse_strings(Seq::empty()) == Ok::<Seq<Seq<char>>, ProtoError>(Seq::empty()),
        parse_strings(strings_bytes(ss) + d) == Err::<Seq<Seq<char>>, ProtoError>(ProtoError::NotKnow),
    decreases ss.len(),
{
    if ss.len() == 0 {
        assert(strings_bytes(ss) + d =~= d);
    } else {
        let rest = strings_bytes(ss.drop_first()) + d;
        assert(fits_string(ss[0]));
        assert(strings_bytes(ss) + d =~= mqtt_string(ss[0]) + rest);
        lemma_string_round_trip(ss[0], rest);
        assert(forall|i: int| 0 <= i < ss.drop_first().len() ==> ss.drop_first()[i] == ss[i + 1]);
        lemma_string_list_termination(ss.drop_first(), d);
        assert((strings_bytes(ss) + d).len() > rest.len());
    }
}

proof fn lemma_strings_bytes_push(ss: Seq<Seq<char>>, c: Seq<char>)
    ensures
        strings_bytes(ss.push(c)) == strings_bytes(ss) + mqtt_string(c),
    decreases ss.len(),
{
    if ss.len() == 0 {
        assert(ss.push(c).drop_first() =~= Seq::<Seq<char>>::empty());
        assert(ss.push(c)[0] == c);
        assert(strings_bytes(ss.push(c).drop_first()) == Seq::<u8>::empty());
        assert(strings_bytes(ss.push(c)) =~= strings_bytes(ss) + mqtt_string(c));
    } else {
        lemma_strings_bytes_push(ss.drop_first(), c);
        assert(ss.push(c).drop_first() =~= ss.drop_first().push(c));
        assert(strings_bytes(ss.push(c)) =~= strings_bytes(ss) + mqtt_string(c));
    }
}

/// Reads length-prefixed strings from `stream`, from `pos` to the end.
pub fn read_strings(stream: &[u8], pos: usize) -> (r: Result<Vec<String>, ProtoError>)
    requires
        pos <= stream@.len(),
    ensures
        match parse_strings(tail(stream@, pos as int)) {
            Ok(cs) => r matches Ok(v) && v@.map_values(|s: String| s@) == cs,
            Err(e) => r matches Err(x) && x == e,
        },
{
    let mut resp: Vec<String> = Vec::new();
    let mut p = pos;
    while p < stream.len()
        invariant
            pos <= p <= stream@.len(),
            parse_strings(tail(stream@, pos as int)) == match parse_strings(tail(stream@, p as int)) {
                Ok(cs) => Ok::<Seq<Seq<char>>, ProtoError>(resp@.map_values(|s: String| s@) + cs),
                Err(e) => Err(e),
            },
        decreases stream@.len() - p,
    {
        let ghost s = tail(stream@, p as int);
        proof {
            lemma_parsed_string(s);
        }
        let (c, p1) = read_mqtt_string(stream, p)?;
        let ghost old_resp = resp@.map_values(|s: String| s@);
        let ghost cv = c@;
        resp.push(c);
        proof {
            assert(resp@.map_values(|s: String| s@) =~= old_resp.push(cv));
            if let Ok(cs) = parse_strings(tail(stream@, p1 as int)) {
                assert(old_resp + (seq![cv] + cs) =~= old_resp.push(cv) + cs);
            }
        }
        p = p1;
    }
    proof {
        assert(tail(stream@, p as int) =~= Seq::<u8>::empty());
        assert(resp@.map_values(|s: String| s@) + Seq::<Seq<char>>::empty() =~= resp@.map_values(|s: String| s@));
    }
    Ok(resp)
}

/// An UNSUBSCRIBE packet.
#[derive(Debug, Clone, PartialEq, Eq)]
pub struct UnSubscribe {
    pub fixed_header: FixedHeader,
    pub variable_header: GeneralVariableHeader,
    pub topices: Vec<String>,
}

/// The value of an UNSUBSCRIBE that the contracts speak of.
pub struct UnSubscribeView {
    pub fixed_header: FixedHeader,
    pub message_id: usize,
    pub topics: Seq<Seq<char>>,
}

impl View for UnSubscribe {
    type V = UnSubscribeView;

    open spec fn view(&self) -> UnSubscribeView {
        UnSubscribeView {
            fixed_header: self.fixed_header,
            message_id: self.variable_header.message_id,
            topics: self.topices@.map_values(|s: String| s@),
        }
    }
}

/// The body of an UNSUBSCRIBE: the identifier, then the topic names.
pub open spec fn unsubscribe_body(m: UnSubscribeView) -> Seq<u8> {
    be16(m.message_id as u16) + strings_bytes(m.topics)
}

/// The wire form of an UNSUBSCRIBE.
pub open spec fn unsubscribe_bytes(m: UnSubscribeView) -> Seq<u8> {
    frame_bytes(plain_header(MessageType::UNSUBSCRIBE), unsubscribe_body(m))
}

/// Why an UNSUBSCRIBE cannot be written, if it cannot.
pub open spec fn unsubscribe_encode_error(m: UnSubscribeView) -> Option<ProtoError> {
    if m.message_id > 65535 || exists|i: int| 0 <= i < m.topics.len() && !fits_string(#[trigger] m.topics[i]) {
        Some(ProtoError::EncodeVariableHeaderError)
    } else if unsubscribe_body(m).len() > MAX_REMAINING_LENGTH {
        Some(ProtoError::OutOfMaxRemainingLength(unsubscribe_body(m).len() as usize))
    } else {
        None
    }
}

/// Reads an UNSUBSCRIBE from the front of `s`.
pub open spec fn parse_unsubscribe(s: Seq<u8>) -> Result<UnSubscribeView, ProtoError> {
    match parse_frame(s) {
        Ok((h, body)) => if h.message_type != MessageType::UNSUBSCRIBE {
            Err(ProtoError::NotKnow)
        } else {
            match parse_u16(body) {
                Ok((id, r)) => match parse_strings(r) {
                    Ok(cs) => Ok(UnSubscribeView { fixed_header: h, message_id: id as usize, topics: cs }),
                    Err(e) => Err(e),
                },
                Err(_) => Err(ProtoError::DecodeGeneralVariableHeaderError),
            }
        },
        Err(e) => Err(e),
    }
}

/// Whether an UNSUBSCRIBE is one that decoding gives back.
pub open spec fn unsubscribe_wf(m: UnSubscribeView) -> bool {
    &&& unsubscribe_encode_error(m) is None
    &&& m.fixed_header == with_length(plain_header(MessageType::UNSUBSCRIBE), unsubscribe_body(m).len())
}

/// A well-formed UNSUBSCRIBE is read back from its wire form, its topics in
/// their order.
pub proof fn lemma_unsubscribe_round_trip(m: UnSubscribeView, rest: Seq<u8>)
    requires
        unsubscribe_wf(m),
    ensures
        parse_unsubscribe(unsubscribe_bytes(m) + rest) == Ok::<UnSubscribeView, ProtoError>(m),
{
    let body = unsubscribe_body(m);
    lemma_frame_round_trip(plain_header(MessageType::UNSUBSCRIBE), body, rest);
    lemma_u16_round_trip(m.message_id as u16, strings_bytes(m.topics));
    lemma_strings_round_trip(m.topics);
}

impl UnSubscribe {
    pub fn new(fixed_header: FixedHeader, variable_header: GeneralVariableHeader, topices: Vec<String>) -> (r: Self)
        ensures
            r.fixed_header == fixed_header,
            r.variable_header == variable_header,
            r.topices == topices,
    {
        Self { fixed_header, variable_header, topices }
    }

    pub fn message_id(&self) -> (r: usize)
        ensures
            r == self.variable_header.message_id,
    {
        self.variable_header.message_id
    }

    pub fn topices(&self) -> (r: Vec<String>)
        ensures
            r@.map_values(|s: String| s@) == self@.topics,
    {
        let mut out: Vec<String> = Vec::new();
        let mut i: usize = 0;
        while i < self.topices.len()
            invariant
                i <= self.topices@.len(),
                out@.map_values(|s: String| s@) == self@.topics.take(i as int),
            decreases self.topices@.len() - i,
        {
            let ghost before = out@.map_values(|s: String| s@);
            let c = self.topices[i].clone();
            let ghost cv = c@;
            out.push(c);
            assert(out@.map_values(|s: String| s@) =~= before.push(cv));
            assert(self@.topics.take(i + 1) =~= self@.topics.take(i as int).push(cv));
            i = i + 1;
        }
        assert(self@.topics.take(i as int) =~= self@.topics);
        out
    }

    /// Writes the packet, its remaining length computed from its body. A
    /// packet that cannot be written leaves `buffer` as it was.
    pub fn encode(&self, buffer: &mut BytesMut) -> (r: Result<usize, ProtoError>)
        ensures
            match unsubscribe_encode_error(self@) {
                Some(e) => r == Err::<usize, ProtoError>(e) && buf_view(*final(buffer)) == buf_view(
                    *old(buffer),
                ),
                None => r == Ok::<usize, ProtoError>(unsubscribe_bytes(self@).len() as usize) && buf_view(
                    *final(buffer),
                ) == buf_view(*old(buffer)) + unsubscribe_bytes(self@),
            },
    {
        let ghost m = self@;
        if self.variable_header.message_id > 65535 {
            return Err(ProtoError::EncodeVariableHeaderError);
        }
        let mut body: Vec<u8> = Vec::new();
        write_u16(&mut body, self.variable_header.message_id as u16);
        let mut i: usize = 0;
        while i < self.topices.len()
            invariant
                i <= self.topices@.len(),
                m == self@,
                m.topics.len() == self.topices@.len(),
                m.message_id <= 65535,
                body@ == be16(m.message_id as u16) + strings_bytes(m.topics.take(i as int)),
                forall|j: int| 0 <= j < i ==> fits_string(#[trigger] m.topics[j]),
            decreases self.topices@.len() - i,
        {
            let b = self.topices[i].as_str().as_bytes();
            if b.len() > 65535 {
                assert(!fits_string(m.topics[i as int]));
                return Err(ProtoError::EncodeVariableHeaderError);
            }
            write_mqtt_bytes(&mut body, b);
            proof {
                assert(m.topics.take(i + 1) =~= m.topics.take(i as int).push(m.topics[i as int]));
                lemma_strings_bytes_push(m.topics.take(i as int), m.topics[i as int]);
            }
            i = i + 1;
        }
        proof {
            assert(m.topics.take(i as int) =~= m.topics);
        }
        if body.len() > MAX_REMAINING_LENGTH {
            return Err(ProtoError::OutOfMaxRemainingLength(body.len()));
        }
        let header = FixedHeader {
            message_type: MessageType::UNSUBSCRIBE,
            dup: Some(false),
            qos: None,
            retain: Some(false),
            remaining_length: 0,
            len: 0,
        };
        proof {
            assert(crate::fixed_header::header_bytes(header, body@.len()) == crate::fixed_header::header_bytes(plain_header(MessageType::UNSUBSCRIBE), body@.len()));
        }
        encode_frame(&header, body.as_slice(), buffer)
    }

    /// Reads the UNSUBSCRIBE at the front of `stream`.
    pub fn decode(stream: &[u8]) -> (r: Result<Self, ProtoError>)
        ensures
            match parse_unsubscribe(stream@) {
                Ok(m) => r matches Ok(p) && p@ == m,
                Err(e) => r matches Err(x) && x == e,
            },
    {
        let (h, start, end) = decode_frame(stream)?;
        if h.message_type != MessageType::UNSUBSCRIBE {
            return Err(ProtoError::NotKnow);
        }
        let body = vstd::slice::slice_subrange(stream, start, end);
        proof {
            assert(tail(body@, 0) =~= body@);
        }
        let (id, p) = match read_u16(body, 0) {
            Ok(x) => x,
            Err(_) => return Err(ProtoError::DecodeGeneralVariableHeaderError),
        };
        let topices = read_strings(body, p)?;
        Ok(UnSubscribe { fixed_header: h, variable_header: GeneralVariableHeader::new(id as usize), topices })
    }
}

/// A SUBACK packet: one return code per requested filter, in request order.
#[derive(Debug, Clone, PartialEq, Eq)]
pub struct SubAck {
    pub fixed_header: FixedHeader,
    pub variable_header: GeneralVariableHeader,
    pub acks: Vec<u8>,
}

/// The value of a SUBACK that the contracts speak of.
pub struct SubAckView {
    pub fixed_header: FixedHeader,
    pub message_id: usize,
    pub acks: Seq<u8>,
}

impl View for SubAck {
    type V = SubAckView;

    open spec fn view(&self) -> SubAckView {
        SubAckView {
            fixed_header: self.fixed_header,
            message_id: self.variable_header.message_id,
            acks: self.acks@,
        }
    }
}

/// The body of a SUBACK: the identifier, then the return codes.
pub open spec fn sub_ack_body(m: SubAckView) -> Seq<u8> {
    be16(m.message_id as u16) + m.acks
}

/// The wire form of a SUBACK.
pub open spec fn sub_ack_bytes(m: SubAckView) -> Seq<u8> {
    frame_bytes(plain_header(MessageType::SUBACK), sub_ack_body(m))
}

/// Why a SUBACK cannot be written, if it cannot.
pub open spec fn sub_ack_encode_error(m: SubAckView) -> Option<ProtoError> {
    if m.message_id > 65535 {
        Some(ProtoError::EncodeVariableHeaderError)
    } else if sub_ack_body(m).len() > MAX_REMAINING_LENGTH {
        Some(ProtoError::OutOfMaxRemainingLength(sub_ack_body(m).len() as usize))
    } else {
        None
    }
}

/// Reads a SUBACK from the front of `s`.
pub open spec fn parse_sub_ack(s: Seq<u8>) -> Result<SubAckView, ProtoError> {
    match parse_frame(s) {
        Ok((h, body)) => if h.message_type != MessageType::SUBACK {
            Err(ProtoError::NotKnow)
        } else {
            match parse_u16(body) {
                Ok((id, r)) => Ok(SubAckView { fixed_header: h, message_id: id as usize, acks: r }),
                Err(_) => Err(ProtoError::DecodeGeneralVariableHeaderError),
            }
        },
        Err(e) => Err(e),
    }
}

/// Whether a SUBACK is one that decoding gives back.
pub open spec fn sub_ack_wf(m: SubAckView) -> bool {
    &&& sub_ack_encode_error(m) is None
    &&& m.fixed_header == with_length(plain_header(MessageType::SUBACK), sub_ack_body(m).len())
}

/// A well-formed SUBACK is read back from its wire form, its codes in order.
pub proof fn lemma_sub_ack_round_trip(m: SubAckView, rest: Seq<u8>)
    requires
        sub_ack_wf(m),
    ensures
        parse_sub_ack(sub_ack_bytes(m) + rest) == Ok::<SubAckView, ProtoError>(m),
{
    lemma_frame_round_trip(plain_header(MessageType::SUBACK), sub_ack_body(m), rest);
    lemma_u16_round_trip(m.message_id as u16, m.acks);
}

impl SubAck {
    /// A SUBACK whose lengths are set from its return codes.
    pub fn new(fixed_header: FixedHeader, variable_header: GeneralVariableHeader, acks: Vec<u8>) -> (r: Self)
        requires
            acks@.len() + 2 <= usize::MAX,
        ensures
            acks@.len() + 2 <= MAX_REMAINING_LENGTH ==> r.fixed_header == with_length(fixed_header, acks@.len() + 2),
            r.fixed_header.remaining_length == acks@.len() + 2,
            r.fixed_header.message_type == fixed_header.message_type,
            r.variable_header == variable_header,
            r.acks == acks,
    {
        let fixed_header = with_lengths(fixed_header, acks.len() + 2);
        Self { fixed_header, variable_header, acks }
    }

    pub fn message_id(&self) -> (r: usize)
        ensures
            r == self.variable_header.message_id,
    {
        self.variable_header.message_id
    }

    pub fn qos(&self) -> (r: Option<QoS>)
        ensures
            r == self.fixed_header.qos,
    {
        self.fixed_header.qos
    }

    /// Writes the packet, its remaining length computed from its body. A
    /// packet that cannot be written leaves `buffer` as it was.
    pub fn encode(&self, buffer: &mut BytesMut) -> (r: Result<usize, ProtoError>)
        ensures
            match sub_ack_encode_error(self@) {
                Some(e) => r == Err::<usize, ProtoError>(e) && buf_view(*final(buffer)) == buf_view(
                    *old(buffer),
                ),
                None => r == Ok::<usize, ProtoError>(sub_ack_bytes(self@).len() as usize) && buf_view(
                    *final(buffer),
                ) == buf_view(*old(buffer)) + sub_ack_bytes(self@),
            },
    {
        if self.variable_header.message_id > 65535 {
            return Err(ProtoError::EncodeVariableHeaderError);
        }
        let mut body: Vec<u8> = Vec::new();
        write_u16(&mut body, self.variable_header.message_id as u16);
        append_bytes(&mut body, self.acks.as_slice());
        if body.len() > MAX_REMAINING_LENGTH {
            return Err(ProtoError::OutOfMaxRemainingLength(body.len()));
        }
        let header = FixedHeader {
            message_type: MessageType::SUBACK,
            dup: Some(false),
            qos: None,
            retain: Some(false),
            remaining_length: 0,
            len: 0,
        };
        proof {
            assert(crate::fixed_header::header_bytes(header, body@.len()) == crate::fixed_header::header_bytes(plain_header(MessageType::SUBACK), body@.len()));
        }
        encode_frame(&header, body.as_slice(), buffer)
    }

    /// Reads the SUBACK at the front of `stream`.
    pub fn decode(stream: &[u8]) -> (r: Result<Self, ProtoError>)
        ensures
            match parse_sub_ack(stream@) {
                Ok(m) => r matches Ok(p) && p@ == m,
                Err(e) => r matches Err(x) && x == e,
            },
    {
        let (h, start, end) = decode_frame(stream)?;
        if h.message_type != MessageType::SUBACK {
            return Err(ProtoError::NotKnow);
        }
        let body = vstd::slice::slice_subrange(stream, start, end);
        proof {
            assert(tail(body@, 0) =~= body@);
        }
        let (id, p) = match read_u16(body, 0) {
            Ok(x) => x,
            Err(_) => return Err(ProtoError::DecodeGeneralVariableHeaderError),
        };
        let acks = vstd::slice::slice_to_vec(vstd::slice::slice_subrange(body, p, body.len()));
        Ok(SubAck { fixed_header: h, variable_header: GeneralVariableHeader::new(id as usize), acks })
    }
}

} // verus!
