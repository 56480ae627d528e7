use bytes::{Bytes, BytesMut};
use walle_mqtt_protocol::builder::MqttMessageBuilder;
use walle_mqtt_protocol::conn_ack::{ConnAck, ConnAckType};
use walle_mqtt_protocol::connect::Connect;
use walle_mqtt_protocol::fixed_header::FixedHeaderBuilder;
use walle_mqtt_protocol::ping::PingReq;
use walle_mqtt_protocol::publish::Publish;
use walle_mqtt_protocol::subscribe::{SubAck, Subscribe, UnSubscribe};
use walle_mqtt_protocol::topic::Topic;
use walle_mqtt_protocol::{MqttVersion, QoS};

fn build_connect() -> Connect {
    MqttMessageBuilder::connect()
        .client_id("client_01")
        .keep_alive(10)
        .clean_session(true)
        .username("rump")
        .password("mq")
        .protocol_level(MqttVersion::V4)
        .retain(false)
        .will_qos(QoS::AtLeastOnce)
        .will_topic("/a")
        .will_message(b"offline".to_vec())
        .build()
        .unwrap()
}

#[test]
fn lib_test() {
    let connect = MqttMessageBuilder::connect()
        .client_id("client_01")
        .keep_alive(10)
        .clean_session(true)
        .username("rump")
        .password("mq")
        .protocol_level(MqttVersion::V4)
        .retain(false)
        .will_qos(QoS::AtLeastOnce)
        .will_topic("/a")
        .will_message(b"offline".to_vec())
        .build();
    println!("connect = {:?}", connect);
    assert!(connect.is_ok());
}

#[test]
fn build_connect_test() {
    let connect = build_connect();
    let mut bytes = BytesMut::new();
    connect.encode(&mut bytes).unwrap();
}

#[test]
fn builder_test() {
    let b = Bytes::from_static(b"this is will message!").len();
    println!("b = {}", b);
    assert_eq!(b, 21);
}

#[test]
fn encode_and_decode_for_connack_should_be_work() {
    let resp = MqttMessageBuilder::conn_ack()
        .conn_ack_type(ConnAckType::NotAuthentication)
        .build();
    println!("conn_ack: {:?}", resp);
    let mut buffer = BytesMut::new();
    let _count = resp.encode(&mut buffer);
    let conn_ack = ConnAck::decode(&buffer[..]).unwrap();
    println!("conn_ack: {:?}", conn_ack);
    assert_eq!(conn_ack, resp);
}

#[test]
fn connect_test() {
    let fixed_header = FixedHeaderBuilder::new().connect().build();
    assert!(fixed_header.is_ok());
}

#[test]
fn encode_and_decode_for_connect_should_be_work() {
    let connect = build_connect();
    println!("connect = {:?}", connect);
    let mut bytes = BytesMut::new();
    let mut bytes1 = BytesMut::new();
    connect.encode(&mut bytes).unwrap();
    println!("bytes = {:?}", bytes);
    let connect1 = Connect::decode(&bytes[..]);
    match connect1 {
        Ok(connect1) => {
            println!("connect1 = {:?}", connect1);
            connect1.encode(&mut bytes1).unwrap();
            println!(
                " encode_and_decode_for_connect_should_be_work bytes1  = {:?}",
                bytes1
            );
            let connect2 = Connect::decode(&bytes1[..]).unwrap();
            println!("connect2 = {:?}", connect2);
            assert_eq!(connect2, connect);
        }
        Err(err) => panic!("decode failed: {:?}", err),
    }
}

#[test]
fn builder_should_work() {
    let fixed_header = FixedHeaderBuilder::new()
        .connect()
        .dup(Some(true))
        .qos(Some(QoS::AtLeastOnce))
        .retain(Some(false))
        .remaining_length(12)
        .build();
    println!("fixed_header = {:?}", fixed_header);
    let fixed_header = fixed_header.unwrap();
    assert_eq!(fixed_header.remaining_length(), 12);
    assert_eq!(fixed_header.len(), 2);
}

#[test]
fn ping_req_test() {
    let mut buffer = BytesMut::new();
    let ping_req = PingReq::new();
    ping_req.encode(&mut buffer).unwrap();
    println!("buffer = {:#?}", &buffer[..]);
    assert_eq!(&buffer[..], &[0b1100_0000u8, 0][..]);
}

#[test]
fn publish_to_bytes() {
    if let Ok(publish) = MqttMessageBuilder::publish()
        .dup(false)
        .qos(QoS::AtMostOnce)
        .retain(false)
        .topic("/test")
        .payload_str("hello world !")
        .build()
    {
        let remaining_len = publish.fixed_header.remaining_length();
        let qos = publish.fixed_header.qos();
        let topic = publish.variable_header.topic();

        let mut buffer = BytesMut::new();
        publish.encode(&mut buffer).unwrap();
        println!("buffer = {:?}", buffer);
        if let Ok(new_publish) = Publish::decode(&buffer[..]) {
            let new_remaining_len = new_publish.fixed_header.remaining_length();
            let new_qos = new_publish.fixed_header.qos();
            let new_topic = new_publish.variable_header.topic();
            assert_eq!(remaining_len, new_remaining_len);
            assert_eq!(qos, new_qos);
            assert_eq!(topic, new_topic);
        } else {
            panic!("decode failed");
        }
    } else {
        panic!("build failed");
    }
}

#[test]
fn publish_to_bytes_test() {
    if let Ok(publish) = MqttMessageBuilder::publish()
        .dup(false)
        .qos(QoS::AtMostOnce)
        .message_id(1)
        .retain(false)
        .topic("/test")
        .payload_str("hello world !")
        .build()
    {
        let qos = publish.fixed_header.qos().unwrap();
        let topic = publish.variable_header.topic();
        let payload = publish.payload();

        let mut buffer = BytesMut::new();
        publish.encode(&mut buffer).unwrap();
        println!("buffer = {:?}", buffer);

        let publish1 = MqttMessageBuilder::publish()
            .dup(false)
            .retain(false)
            .message_id(1)
            .topic(topic.as_str())
            .qos(qos)
            .payload(payload)
            .build()
            .unwrap();
        let mut buffer1 = BytesMut::new();
        publish1.encode(&mut buffer1).unwrap();
        assert_eq!(buffer, buffer1);
    } else {
        panic!("build failed");
    }
}

#[test]
fn sub_ack_test() {
    let resp = MqttMessageBuilder::sub_ack()
        .message_id(12)
        .acks(vec![0, 1, 2, 1, 1, 0])
        .build()
        .unwrap();
    println!("sub = {:?}", resp);
    let mut bytes = BytesMut::new();
    let _ = resp.encode(&mut bytes);
    let decoded = SubAck::decode(&bytes[..]);
    match decoded {
        Ok(sub) => {
            println!("new sub = {:?}", sub);
            assert_eq!(sub, resp);
        }
        Err(e) => panic!("decode error {:?}", e),
    }
}

fn build_sub() -> Subscribe {
    let mut topices = Vec::new();
    let topic1 = Topic::new("/name".to_string(), QoS::AtLeastOnce);
    let topic2 = Topic::new("/test".to_string(), QoS::AtMostOnce);
    topices.push(topic1);
    topices.push(topic2);
    MqttMessageBuilder::subscribe()
        .topics(topices)
        .message_id(1892)
        .build()
        .unwrap()
}

#[test]
fn subscribe_encode_and_decode_subscribe_shoud_be_work() {
    let sub = build_sub();
    println!("sub = {:?}", sub);
    let mut bytes = BytesMut::new();
    sub.encode(&mut bytes).unwrap();
    let resp = Subscribe::decode(&bytes[..]);
    match resp {
        Ok(new_sub) => {
            println!("new sub = {:?}", new_sub);
            assert_eq!(new_sub, sub);
        }
        Err(e) => panic!("decode error {:?}", e),
    }
}

fn build_unsub() -> UnSubscribe {
    let mut topices = Vec::new();
    let topic1 = "/test".to_string();
    let topic2 = "/name".to_string();
    topices.push(topic1);
    topices.push(topic2);
    MqttMessageBuilder::unsubscriber()
        .message_id(65531)
        .topices(topices)
        .build()
        .unwrap()
}

#[test]
fn un_subscribe_encode_and_decode_subscribe_shoud_be_work() {
    let sub = build_unsub();
    println!("sub = {:?}", sub);
    let mut bytes = BytesMut::new();
    sub.encode(&mut bytes).unwrap();
    println!("buffer = {:?}", bytes);
    let resp = UnSubscribe::decode(&bytes[..]);
    match resp {
        Ok(new_sub) => {
            println!("new sub = {:?}", new_sub);
            assert_eq!(new_sub, sub);
        }
        Err(e) => panic!("decode error {:?}", e),
    }
}
