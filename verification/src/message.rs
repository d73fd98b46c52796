//! Application messages and the items of a delivery stream.

use crate::qos::QoS;
use vstd::prelude::*;

verus! {

/// An application message: a topic, an opaque payload and a delivery
/// guarantee.
#[derive(Debug, PartialEq, Eq)]
pub struct Message {
    pub topic: String,
    pub payload: Vec<u8>,
    pub qos: QoS,
}

/// The mathematical value of a [`Message`].
pub struct MessageView {
    pub topic: Seq<char>,
    pub payload: Seq<u8>,
    pub qos: QoS,
}

impl View for Message {
    type V = MessageView;

    open spec fn view(&self) -> MessageView {
        MessageView { topic: self.topic@, payload: self.payload@, qos: self.qos }
    }
}

impl Clone for Message {
    fn clone(&self) -> (res: Self)
        ensures
            res@ == self@,
    {
        Message { topic: self.topic.clone(), payload: self.payload.clone(), qos: self.qos }
    }
}

impl Message {
    /// A message for `topic` with the given payload and guarantee.
    pub fn new(topic: String, payload: Vec<u8>, qos: QoS) -> (m: Message)
        ensures
            m@ == (MessageView { topic: topic@, payload: payload@, qos }),
    {
        Message { topic, payload, qos }
    }
}

/// One item of a delivery stream: a message, or the notice that the
/// connection was lost.
#[derive(Debug, PartialEq, Eq)]
pub enum DeliveryEvent {
    Message(Message),
    ConnectionLost,
}

/// The mathematical value of a [`DeliveryEvent`].
pub enum DeliveryEventView {
    Message(MessageView),
    ConnectionLost,
}

impl View for DeliveryEvent {
    type V = DeliveryEventView;

    open spec fn view(&self) -> DeliveryEventView {
        match self {
            DeliveryEvent::Message(m) => DeliveryEventView::Message(m@),
            DeliveryEvent::ConnectionLost => DeliveryEventView::ConnectionLost,
        }
    }
}

impl DeliveryEvent {
    /// Reads an item of a stream on which an absent message stands for a
    /// lost connection.
    pub fn from_option(item: Option<Message>) -> (e: DeliveryEvent)
        ensures
            item matches Some(m) ==> e@ == DeliveryEventView::Message(m@),
            item is None ==> e@ == DeliveryEventView::ConnectionLost,
    {
        match item {
            Some(m) => DeliveryEvent::Message(m),
            None => DeliveryEvent::ConnectionLost,
        }
    }

    /// The message carried by this item, if it is one.
    pub fn into_message(self) -> (m: Option<Message>)
        ensures
            match self@ {
                DeliveryEventView::Message(v) => m matches Some(x) && x@ == v,
                DeliveryEventView::ConnectionLost => m is None,
            },
    {
        match self {
            DeliveryEvent::Message(m) => Some(m),
            DeliveryEvent::ConnectionLost => None,
        }
    }
}

} // verus!
