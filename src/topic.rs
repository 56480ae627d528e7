//! Topic filters as SUBSCRIBE carries them: a name and a requested QoS.
use vstd::prelude::*;
use vstd::utf8::encode_utf8;

use crate::coder::{
    fits_string, lemma_parsed_string, lemma_string_round_trip, lemma_u8_round_trip, mqtt_string,
    parse_mqtt_string, parse_u8, read_mqtt_string, read_u8, tail, write_mqtt_bytes,
};
use crate::error::ProtoError;
use crate::{qos_code, qos_of_code, QoS};

verus! {

/// A topic filter with its requested QoS; `name_len` is the length of the
/// name in bytes.
#[derive(Debug, Clone, PartialEq, Eq)]
pub struct Topic {
    pub name: String,
    pub qos: QoS,
    pub name_len: usize,
}

/// The value of a topic filter that the contracts speak of.
pub struct TopicView {
    pub name: Seq<char>,
    pub qos: QoS,
    pub name_len: usize,
}

impl View for Topic {
    type V = TopicView;

    open spec fn view(&self) -> TopicView {
        TopicView { name: self.name@, qos: self.qos, name_len: self.name_len }
    }
}

/// Whether a topic filter can be written and read back as it is: its name
/// fits a length prefix and `name_len` is the name's length.
pub open spec fn topic_wf(t: TopicView) -> bool {
    fits_string(t.name) && t.name_len == encode_utf8(t.name).len()
}

/// The wire form of a topic filter: the name, then the QoS byte.
pub open spec fn topic_bytes(t: TopicView) -> Seq<u8> {
    mqtt_string(t.name) + seq![qos_code(t.qos)]
}

/// The wire form of a list of topic filters, one after another.
pub open spec fn topics_bytes(ts: Seq<TopicView>) -> Seq<u8>
    decreases ts.len(),
{
    if ts.len() == 0 {
        Seq::empty()
    } else {
        topic_bytes(ts[0]) + topics_bytes(ts.drop_first())
    }
}

/// Reads one topic filter from the front of `s`; a truncated filter is a
/// `ReadTopicError`, a QoS byte above 2 a `QoSError`.
pub open spec fn parse_topic(s: Seq<u8>) -> Result<(TopicView, Seq<u8>), ProtoError> {
    match parse_mqtt_string(s) {
        Ok((name, r1)) => match parse_u8(r1) {
            Ok((q, r2)) => match qos_of_code(q) {
                Ok(qos) => Ok((TopicView { name, qos, name_len: encode_utf8(name).len() as usize }, r2)),
                Err(e) => Err(e),
            },
            Err(_) => Err(ProtoError::ReadTopicError),
        },
        Err(_) => Err(ProtoError::ReadTopicError),
    }
}

/// Reads topic filters until `s` is used up: none from an empty `s`, and an
/// error, not a shorter list, if one of them is malformed.
pub open spec fn parse_topics(s: Seq<u8>) -> Result<Seq<TopicView>, ProtoError>
    decreases s.len(),
{
    if s.len() == 0 {
        Ok(Seq::empty())
    } else {
        match parse_topic(s) {
            Ok((t, r)) => if r.len() < s.len() {
                match parse_topics(r) {
                    Ok(ts) => Ok(seq![t] + ts),
                    Err(e) => Err(e),
                }
            } else {
                Err(ProtoError::ReadTopicError)
            },
            Err(e) => Err(e),
        }
    }
}

pub proof fn lemma_parse_topic_shrinks(s: Seq<u8>)
    ensures
        parse_topic(s) matches Ok((t, r)) ==> r.len() + 3 <= s.len() && topic_wf(t) && topic_bytes(t) + r == s,
{
    lemma_parsed_string(s);
    if let Ok((t, r)) = parse_topic(s) {
        let (name, r1) = parse_mqtt_string(s).unwrap();
        assert(r1 =~= seq![r1[0]] + r);
        assert(topic_bytes(t) + r =~= mqtt_string(name) + r1);
    }
}

/// Well-formed topic filters are read back from their wire form, in order.
pub proof fn lemma_topics_round_trip(ts: Seq<TopicView>)
    requires
        forall|i: int| 0 <= i < ts.len() ==> topic_wf(#[trigger] ts[i]),
    ensures
        parse_topics(topics_bytes(ts)) == Ok::<Seq<TopicView>, ProtoError>(ts),
    decreases ts.len(),
{
    if ts.len() > 0 {
        let t = ts[0];
        let rest = topics_bytes(ts.drop_first());
        assert(topic_wf(ts[0]));
        assert(topics_bytes(ts) =~= mqtt_string(t.name) + (seq![qos_code(t.qos)] + rest));
        lemma_string_round_trip(t.name, seq![qos_code(t.qos)] + rest);
        lemma_u8_round_trip(qos_code(t.qos), rest);
        crate::lemma_qos_code_round_trip(t.qos);
        assert(parse_topic(topics_bytes(ts)) == Ok::<(TopicView, Seq<u8>), ProtoError>((t, rest)));
        assert(forall|i: int| 0 <= i < ts.drop_first().len() ==> ts.drop_first()[i] == ts[i + 1]);
        lemma_topics_round_trip(ts.drop_first());
        assert(seq![t] + ts.drop_first() =~= ts);
        assert(topics_bytes(ts).len() > rest.len());
    } else {
        assert(ts =~= Seq::<TopicView>::empty());
    }
}

impl Topic {
    pub fn new(name: String, qos: QoS) -> (r: Self)
        ensures
            r.name@ == name@,
            r.qos == qos,
            r.name_len == encode_utf8(name@).len(),
    {
        let name_len = name.as_str().as_bytes().len();
        Self { name, qos, name_len }
    }

    pub fn name(&self) -> (r: String)
        ensures
            r@ == self.name@,
    {
        self.name.clone()
    }

    pub fn qos(&self) -> (r: QoS)
        ensures
            r == self.qos,
    {
        self.qos
    }

    pub fn name_len(&self) -> (r: usize)
        ensures
            r == self.name_len,
    {
        self.name_len
    }

    /// Appends the filter's wire form to `buffer` and returns its length; a
    /// name too long for its length prefix is rejected with nothing written.
    pub fn encode(&self, buffer: &mut Vec<u8>) -> (r: Result<usize, ProtoError>)
        ensures
            fits_string(self.name@) ==> r == Ok::<usize, ProtoError>(topic_bytes(self@).len() as usize)
                && final(buffer)@ == old(buffer)@ + topic_bytes(self@),
            !fits_string(self.name@) ==> r == Err::<usize, ProtoError>(
                ProtoError::EncodeVariableHeaderError,
            ) && final(buffer)@ == old(buffer)@,
    {
        let b = self.name.as_str().as_bytes();
        if b.len() > 65535 {
            return Err(ProtoError::EncodeVariableHeaderError);
        }
        write_mqtt_bytes(buffer, b);
        buffer.push(self.qos.code());
        assert(buffer@ =~= old(buffer)@ + topic_bytes(self@));
        Ok(b.len() + 3)
    }

    /// Reads topic filters from `stream`, from `pos` to the end.
    pub fn read_topics(stream: &[u8], pos: usize) -> (r: Result<Vec<Topic>, ProtoError>)
        requires
            pos <= stream@.len(),
        ensures
            match parse_topics(tail(stream@, pos as int)) {
                Ok(ts) => r matches Ok(v) && v@.map_values(|t: Topic| t@) == ts,
                Err(e) => r matches Err(x) && x == e,
            },
    {
        let mut resp: Vec<Topic> = Vec::new();
        let mut p = pos;
        while p < stream.len()
            invariant
                pos <= p <= stream@.len(),
                parse_topics(tail(stream@, pos as int)) == match parse_topics(tail(stream@, p as int)) {
                    Ok(ts) => Ok::<Seq<TopicView>, ProtoError>(resp@.map_values(|t: Topic| t@) + ts),
                    Err(e) => Err(e),
                },
            decreases stream@.len() - p,
        {
            let ghost s = tail(stream@, p as int);
            proof {
                lemma_parse_topic_shrinks(s);
            }
            let (name, p1) = match read_mqtt_string(stream, p) {
                Ok(x) => x,
                Err(_) => return Err(ProtoError::ReadTopicError),
            };
            let (q, p2) = match read_u8(stream, p1) {
                Ok(x) => x,
                Err(_) => return Err(ProtoError::ReadTopicError),
            };
            let qos = QoS::try_from(q)?;
            let topic = Topic::new(name, qos);
            let ghost old_resp = resp@.map_values(|t: Topic| t@);
            resp.push(topic);
            proof {
                assert(resp@.map_values(|t: Topic| t@) =~= old_resp.push(topic@));
                if let Ok(ts) = parse_topics(tail(stream@, p2 as int)) {
                    assert(old_resp + (seq![topic@] + ts) =~= old_resp.push(topic@) + ts);
                }
            }
            p = p2;
        }
        proof {
            assert(tail(stream@, p as int) =~= Seq::<u8>::empty());
            assert(resp@.map_values(|t: Topic| t@) + Seq::<TopicView>::empty() =~= resp@.map_values(|t: Topic| t@));
        }
        Ok(resp)
    }
}

pub proof fn lemma_topics_bytes_push(ts: Seq<TopicView>, t: TopicView)
    ensures
        topics_bytes(ts.push(t)) == topics_bytes(ts) + topic_bytes(t),
    decreases ts.len(),
{
    if ts.len() == 0 {
        assert(ts.push(t).drop_first() =~= Seq::<TopicView>::empty());
        assert(ts.push(t)[0] == t);
        assert(topics_bytes(ts.push(t).drop_first()) == Seq::<u8>::empty());
        assert(topics_bytes(ts) == Seq::<u8>::empty());
        assert(topics_bytes(ts.push(t)) =~= topics_bytes(ts) + topic_bytes(t));
    } else {
        lemma_topics_bytes_push(ts.drop_first(), t);
        assert(ts.push(t).drop_first() =~= ts.drop_first().push(t));
        assert(topics_bytes(ts.push(t)) =~= topics_bytes(ts) + topic_bytes(t));
    }
}

/// The sum over the filters of the name length plus three.
pub open spec fn topics_len_of(ts: Seq<TopicView>) -> nat
    decreases ts.len(),
{
    if ts.len() == 0 {
        0
    } else {
        (topics_len_of(ts.drop_last()) + ts.last().name_len + 3) as nat
    }
}

/// Whether `d` starts with a length prefix that promises more bytes than
/// follow it.
pub open spec fn dangling_prefix(d: Seq<u8>) -> bool {
    d.len() >= 2 && d[0] * 256 + d[1] > d.len() - 2
}

/// A filter list ends exactly where its bytes end: no bytes give no filters,
/// and well-formed filters followed by a dangling length prefix give an
/// error, not the filters before it.
pub proof fn lemma_topic_list_termination(ts: Seq<TopicView>, d: Seq<u8>)
    requires
        forall|i: int| 0 <= i < ts.len() ==> topic_wf(#[trigger] ts[i]),
        dangling_prefix(d),
    ensures
        parse_topics(Seq::empty()) == Ok::<Seq<TopicView>, ProtoError>(Seq::empty()),
        parse_topics(topics_bytes(ts) + d) == Err::<Seq<TopicView>, ProtoError>(ProtoError::ReadTopicError),
    decreases ts.len(),
{
    if ts.len() == 0 {
        assert(topics_bytes(ts) + d =~= d);
        assert(parse_topic(d) == Err::<(TopicView, Seq<u8>), ProtoError>(ProtoError::ReadTopicError));
    } else {
        let t = ts[0];
        let rest = topics_bytes(ts.drop_first()) + d;
        assert(topic_wf(ts[0]));
        assert(topics_bytes(ts) + d =~= mqtt_string(t.name) + (seq![qos_code(t.qos)] + rest));
        lemma_string_round_trip(t.name, seq![qos_code(t.qos)] + rest);
        lemma_u8_round_trip(qos_code(t.qos), rest);
        crate::lemma_qos_code_round_trip(t.qos);
        assert(forall|i: int| 0 <= i < ts.drop_first().len() ==> ts.drop_first()[i] == ts[i + 1]);
        lemma_topic_list_termination(ts.drop_first(), d);
        assert(parse_topic(topics_bytes(ts) + d) == Ok::<(TopicView, Seq<u8>), ProtoError>((t, rest)));
        assert((topics_bytes(ts) + d).len() > rest.len());
    }
}

} // verus!
