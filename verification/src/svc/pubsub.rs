//! The Pub/Sub service surface: publishing message batches to a topic.

use vstd::prelude::*;

use crate::client::{ApiClient, Error, HttpMethod, HttpRequest, HttpTransport, RawApi};
use crate::json::{JsonVal, push_all, bytes_to_string, bytes_clone};
use vstd::string::{StrSliceExecFns, StringExecFns};

verus! {

/// Marker for the Pub/Sub service.
pub struct PubsubService {}

/// The Pub/Sub handle.
pub type Hub<'a, T> = crate::client::Hub<'a, PubsubService, T>;

/// A batch of messages to publish.
#[derive(Debug)]
pub struct PublishRequest {
    pub messages: Vec<PubsubPublishMessage>,
}

/// The ids the topic assigned, in order.
#[derive(Debug)]
pub struct PublishResponse {
    pub message_ids: Vec<String>,
}

/// One message: base64 data and its attributes. The payload must not be
/// empty; it carries either data or at least one attribute.
#[derive(Debug)]
pub struct PubsubPublishMessage {
    /// The payload, as standard base64 text.
    pub data: String,
    pub attributes: Vec<(String, String)>,
}

impl PubsubPublishMessage {
    /// The message's document.
    pub(crate) fn to_json(&self) -> JsonVal {
        let mut attrs: Vec<(Vec<u8>, JsonVal)> = Vec::new();
        let mut i: usize = 0;
        while i < self.attributes.len()
            decreases self.attributes.len() - i,
        {
            attrs.push(
                (
                    self.attributes[i].0.as_str().as_bytes_vec(),
                    JsonVal::Str(self.attributes[i].1.as_str().as_bytes_vec()),
                ),
            );
            i += 1;
        }
        let mut ps: Vec<(Vec<u8>, JsonVal)> = Vec::new();
        crate::svc::common::push_str_member(&mut ps, ("data").as_bytes_vec(), &self.data);
        ps.push((("attributes").as_bytes_vec(), JsonVal::Obj(attrs)));
        JsonVal::Obj(ps)
    }
}

impl<'a, T: HttpTransport> Hub<'a, T> {
    /// Publishes a message batch to a topic and returns the assigned ids.
    pub fn publish_messages(
        &self,
        ns: &str,
        topic: &str,
        messages: Vec<PubsubPublishMessage>,
    ) -> Result<PublishResponse, Error> {
        let mut uri = ("https://pubsub.googleapis.com/v1/projects/").as_bytes_vec();
        push_all(&mut uri, ns.as_bytes());
        push_all(&mut uri, ("/topics/").as_bytes_vec().as_slice());
        push_all(&mut uri, topic.as_bytes());
        push_all(&mut uri, (":publish").as_bytes_vec().as_slice());
        let mut arr: Vec<JsonVal> = Vec::new();
        let mut i: usize = 0;
        while i < messages.len()
            decreases messages.len() - i,
        {
            arr.push(messages[i].to_json());
            i += 1;
        }
        let mut ps: Vec<(Vec<u8>, JsonVal)> = Vec::new();
        ps.push((("messages").as_bytes_vec(), JsonVal::Arr(arr)));
        let body = JsonVal::Obj(ps);
        let scopes: Vec<String> = Vec::new();
        let v = self.post(uri, &body, scopes.as_slice())?;
        let items = crate::svc::common::req_arr(&v, ("messageIds").as_bytes_vec().as_slice())?;
        let mut message_ids: Vec<String> = Vec::new();
        let mut j: usize = 0;
        while j < items.len()
            decreases items.len() - j,
        {
            match crate::json::as_str(&items[j]) {
                Some(t) => match bytes_to_string(bytes_clone(t)) {
                    Ok(s) => message_ids.push(s),
                    Err(_) => {
                        return Err(Error::JsonError(crate::svc::common::shape_text()));
                    },
                },
                None => {
                    return Err(Error::JsonError(crate::svc::common::shape_text()));
                },
            }
            j += 1;
        }
        Ok(PublishResponse { message_ids })
    }
}

} // verus!
