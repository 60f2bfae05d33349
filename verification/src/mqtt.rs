//! The MQTT source: which notifications of the broker become events.

use vstd::prelude::*;
use crate::record::copy_bytes;
use crate::text::text_of;

verus! {

/// What is said of a notification that is no publication.
pub const UNSUPPORTED_EVENT: &'static str = "We don't support this event type!";

/// What the connection to the broker delivered.
#[derive(Debug, Clone, PartialEq, Eq)]
pub enum MqttNotification {
    /// A message that was published to a topic.
    Publish { topic: String, payload: Vec<u8> },
    /// Anything else: a packet of another kind, or a request that went out.
    Other,
}

/// The mathematical content of an [`MqttNotification`].
pub enum MqttNotificationView {
    Publish { topic: Seq<char>, payload: Seq<u8> },
    Other,
}

impl View for MqttNotification {
    type V = MqttNotificationView;

    open spec fn view(&self) -> MqttNotificationView {
        match self {
            MqttNotification::Publish { topic, payload } => MqttNotificationView::Publish {
                topic: topic@,
                payload: payload@,
            },
            MqttNotification::Other => MqttNotificationView::Other,
        }
    }
}

/// A message of the broker, ready to be forwarded.
#[derive(Debug, Clone, PartialEq, Eq)]
pub struct MqttEvent {
    pub mqtt_topic: String,
    pub payload: Vec<u8>,
}

/// The mathematical content of an [`MqttEvent`].
pub struct MqttEventView {
    pub mqtt_topic: Seq<char>,
    pub payload: Seq<u8>,
}

impl View for MqttEvent {
    type V = MqttEventView;

    open spec fn view(&self) -> MqttEventView {
        MqttEventView { mqtt_topic: self.mqtt_topic@, payload: self.payload@ }
    }
}

/// The event for a notification: a publication becomes an event with its
/// topic and payload, anything else is refused.
pub open spec fn event_of(n: MqttNotificationView) -> Result<MqttEventView, Seq<char>> {
    match n {
        MqttNotificationView::Publish { topic, payload } => Ok(
            MqttEventView { mqtt_topic: topic, payload },
        ),
        MqttNotificationView::Other => Err(UNSUPPORTED_EVENT@),
    }
}

impl MqttEvent {
    /// The event for a notification of the broker.
    pub fn try_from(notification: &MqttNotification) -> (r: Result<MqttEvent, String>)
        ensures
            match r {
                Ok(e) => event_of(notification@) == Ok::<MqttEventView, Seq<char>>(e@),
                Err(m) => event_of(notification@) == Err::<MqttEventView, Seq<char>>(m@),
            },
    {
        match notification {
            MqttNotification::Publish { topic, payload } => Ok(
                MqttEvent { mqtt_topic: topic.clone(), payload: copy_bytes(payload) },
            ),
            MqttNotification::Other => Err(text_of(UNSUPPORTED_EVENT)),
        }
    }
}

} // verus!
