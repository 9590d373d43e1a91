//! Alert events for the alert manager, and the JSON document that carries one.
use vstd::prelude::*;
use crate::text::{append_json_escaped, decimal, decimal_text, json_escaped};

verus! {

#[verifier::external_type_specification]
#[verifier::external_body]
pub struct ExJsonValue(serde_json::Value);

#[verifier::external_type_specification]
#[verifier::external_body]
pub struct ExJsonError(serde_json::Error);

/// Whether serde_json accepts `text` as one JSON document.
pub uninterp spec fn json_accepts(text: Seq<char>) -> bool;

/// Relies on serde_json::from_str (into a `Value`): it parses the text as one
/// JSON document, and whether it succeeds depends on the text alone.
#[verifier::external_body]
fn parse_json(text: &str) -> (r: Result<serde_json::Value, serde_json::Error>)
    ensures
        r is Ok <==> json_accepts(text@),
{
    serde_json::from_str(text)
}

/// The source of every alert.
pub const GENERATOR_URL: &'static str = "https://github.com/darwinia-network/postman_rs";

/// The name of the alert on a block whose hashes differ.
pub const HASH_MISMATCH_ALERT: &'static str = "ShadowBlockHashNotSameAsEtherscan";

/// The name of the alert on a shadow that has fallen behind the chain.
pub const SHADOW_STOPPED_ALERT: &'static str = "ShadowMayStopped";

/// One incident for the alert manager, sent once.
#[derive(Debug, Clone, PartialEq, Eq)]
pub struct AlertEvent {
    pub alert_name: String,
    pub labels: Vec<(String, String)>,
    pub generator_url: String,
}

pub struct AlertEventView {
    pub alert_name: Seq<char>,
    pub labels: Seq<(Seq<char>, Seq<char>)>,
    pub generator_url: Seq<char>,
}

pub open spec fn label_view(p: (String, String)) -> (Seq<char>, Seq<char>) {
    (p.0@, p.1@)
}

impl View for AlertEvent {
    type V = AlertEventView;

    open spec fn view(&self) -> AlertEventView {
        AlertEventView {
            alert_name: self.alert_name@,
            labels: self.labels@.map_values(|p: (String, String)| label_view(p)),
            generator_url: self.generator_url@,
        }
    }
}

/// The view of an alert, if there is one.
pub open spec fn alert_view(a: Option<AlertEvent>) -> Option<AlertEventView> {
    match a {
        Some(x) => Some(x@),
        None => None,
    }
}

/// The alert on block `block`, whose hash the shadow at `shadow` gives
/// otherwise than the explorer.
pub open spec fn hash_mismatch_alert(shadow: Seq<char>, block: nat) -> AlertEventView {
    AlertEventView {
        alert_name: HASH_MISMATCH_ALERT@,
        labels: seq![("shadow"@, shadow), ("block"@, decimal(block))],
        generator_url: GENERATOR_URL@,
    }
}

/// The alert on the shadow at `shadow`, which is `gap` blocks behind the chain.
pub open spec fn shadow_stopped_alert(shadow: Seq<char>, gap: nat) -> AlertEventView {
    AlertEventView {
        alert_name: SHADOW_STOPPED_ALERT@,
        labels: seq![("shadow"@, shadow), ("gap"@, decimal(gap))],
        generator_url: GENERATOR_URL@,
    }
}

/// One label in the payload, after the alert name: `,"key":"value"`, each
/// escaped for the inside of a JSON string.
pub open spec fn label_text(label: (Seq<char>, Seq<char>)) -> Seq<char> {
    ",\""@ + json_escaped(label.0) + "\":\""@ + json_escaped(label.1) + "\""@
}

/// The labels in the payload, in order.
pub open spec fn labels_text(labels: Seq<(Seq<char>, Seq<char>)>) -> Seq<char>
    decreases labels.len(),
{
    if labels.len() == 0 {
        Seq::empty()
    } else {
        labels_text(labels.drop_last()) + label_text(labels.last())
    }
}

/// The text sent to the alert manager: a one-element array holding the labels,
/// the alert name first, and the generator URL. Every name and value is
/// escaped for the inside of a JSON string, so that it arrives as it is.
pub open spec fn payload_text(ev: AlertEventView) -> Seq<char> {
    "[{\"labels\":{\"alertname\":\""@ + json_escaped(ev.alert_name) + "\""@ + labels_text(
        ev.labels,
    ) + "},\"generatorUrl\":\""@ + json_escaped(ev.generator_url) + "\"}]"@
}

fn two_labels(k0: &str, v0: String, k1: &str, v1: String) -> (r: Vec<(String, String)>)
    ensures
        r@.map_values(|p: (String, String)| label_view(p)) == seq![(k0@, v0@), (k1@, v1@)],
{
    let mut r: Vec<(String, String)> = Vec::new();
    r.push((k0.to_owned(), v0));
    r.push((k1.to_owned(), v1));
    assert(r@.map_values(|p: (String, String)| label_view(p)) =~= seq![(k0@, v0@), (k1@, v1@)]);
    r
}

/// The alert on block `block`, whose hash the shadow at `shadow_url` gives
/// otherwise than the explorer.
pub fn block_hash_alert(shadow_url: &str, block: u64) -> (r: AlertEvent)
    ensures
        r@ == hash_mismatch_alert(shadow_url@, block as nat),
{
    AlertEvent {
        alert_name: HASH_MISMATCH_ALERT.to_owned(),
        labels: two_labels("shadow", shadow_url.to_owned(), "block", decimal_text(block)),
        generator_url: GENERATOR_URL.to_owned(),
    }
}

/// The alert on the shadow at `shadow_url`, which is `gap` blocks behind the
/// chain.
pub fn shadow_stopped(shadow_url: &str, gap: u64) -> (r: AlertEvent)
    ensures
        r@ == shadow_stopped_alert(shadow_url@, gap as nat),
{
    AlertEvent {
        alert_name: SHADOW_STOPPED_ALERT.to_owned(),
        labels: two_labels("shadow", shadow_url.to_owned(), "gap", decimal_text(gap)),
        generator_url: GENERATOR_URL.to_owned(),
    }
}

impl AlertEvent {
    /// The text that the alert manager is sent for this event.
    pub fn payload(&self) -> (r: String)
        ensures
            r@ == payload_text(self@),
    {
        let mut s = String::from_str("[{\"labels\":{\"alertname\":\"");
        append_json_escaped(&mut s, self.alert_name.as_str());
        s.append("\"");
        let ghost labels = self@.labels;
        let mut i: usize = 0;
        while i < self.labels.len()
            invariant
                i <= self.labels@.len(),
                labels == self@.labels,
                s@ == "[{\"labels\":{\"alertname\":\""@ + json_escaped(self.alert_name@) + "\""@
                    + labels_text(labels.subrange(0, i as int)),
            decreases self.labels.len() - i,
        {
            let ghost before = s@;
            s.append(",\"");
            append_json_escaped(&mut s, self.labels[i].0.as_str());
            s.append("\":\"");
            append_json_escaped(&mut s, self.labels[i].1.as_str());
            s.append("\"");
            proof {
                let sub = labels.subrange(0, i + 1);
                assert(sub.drop_last() =~= labels.subrange(0, i as int));
                assert(sub.last() == label_view(self.labels@[i as int]));
                assert(s@ =~= before + label_text(sub.last()));
            }
            i = i + 1;
        }
        assert(labels.subrange(0, i as int) =~= labels);
        s.append("},\"generatorUrl\":\"");
        append_json_escaped(&mut s, self.generator_url.as_str());
        s.append("\"}]");
        s
    }

    /// The JSON document that the alert manager is sent for this event; an
    /// error, carrying the payload, where it is not valid JSON.
    pub fn document(&self) -> (r: Result<serde_json::Value, MalformedPayload>)
        ensures
            r is Ok <==> json_accepts(payload_text(self@)),
            r matches Err(e) ==> e.payload@ == payload_text(self@),
    {
        let text = self.payload();
        match parse_json(text.as_str()) {
            Ok(v) => Ok(v),
            Err(_) => Err(MalformedPayload { payload: text }),
        }
    }
}

/// A payload that serde_json did not accept as JSON.
#[derive(Debug, Clone, PartialEq, Eq)]
pub struct MalformedPayload {
    pub payload: String,
}

} // verus!
