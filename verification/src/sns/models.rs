//! The values of the SNS pipeline: devices, messages and publish errors.

use vstd::prelude::*;
use vstd::string::StringExecFns;

use crate::models::alert_event::{alert_body, alert_title, text_of, AlertEvent};
use crate::text::{
    contains_text, eq_ignore_ascii_case, has_infix, json_escape, json_quoted, json_string, json_string_read,
    law_json_string_reads_back, same_ignoring_ascii_case,
};

verus! {

/// A push device registered by a user.
#[derive(Clone, Debug)]
pub struct UserDevice {
    pub id: u128,
    pub user_id: u128,
    pub device_token: String,
    pub platform: String,
    pub endpoint_arn: String,
    pub is_active: bool,
}

/// A device with its texts taken as character sequences.
pub struct UserDeviceView {
    pub id: u128,
    pub user_id: u128,
    pub device_token: Seq<char>,
    pub platform: Seq<char>,
    pub endpoint_arn: Seq<char>,
    pub is_active: bool,
}

impl View for UserDevice {
    type V = UserDeviceView;

    open spec fn view(&self) -> UserDeviceView {
        UserDeviceView {
            id: self.id,
            user_id: self.user_id,
            device_token: self.device_token@,
            platform: self.platform@,
            endpoint_arn: self.endpoint_arn@,
            is_active: self.is_active,
        }
    }
}

/// The views of a list of devices.
pub open spec fn device_views(s: Seq<UserDevice>) -> Seq<UserDeviceView> {
    s.map_values(|d: UserDevice| d@)
}

impl UserDevice {
    /// A copy of the device, equal to it.
    pub fn duplicate(&self) -> (r: UserDevice)
        ensures
            r == *self,
    {
        UserDevice {
            id: self.id,
            user_id: self.user_id,
            device_token: self.device_token.clone(),
            platform: self.platform.clone(),
            endpoint_arn: self.endpoint_arn.clone(),
            is_active: self.is_active,
        }
    }
}

/// A copy of a list of devices, equal to it.
pub fn copy_devices(v: &Vec<UserDevice>) -> (r: Vec<UserDevice>)
    ensures
        r@ == v@,
{
    let mut r: Vec<UserDevice> = Vec::new();
    let n = v.len();
    let mut i: usize = 0;
    while i < n
        invariant
            n == v@.len(),
            i <= n,
            r@ == v@.take(i as int),
        decreases n - i,
    {
        r.push(v[i].duplicate());
        assert(v@.take(i + 1) =~= v@.take(i as int).push(v@[i as int]));
        i = i + 1;
    }
    assert(v@.take(n as int) =~= v@);
    r
}


/// A push notification: its title and its body.
#[derive(Clone, Debug)]
pub struct SnsMessage {
    pub body: String,
    pub title: String,
}

/// The APNS payload of a notification, as `serde_json` writes it (keys in
/// sorted order, no white space).
pub open spec fn apns_payload(title: Seq<char>, body: Seq<char>) -> Seq<char> {
    "{\"aps\":{\"alert\":{\"body\":"@ + json_quoted(body) + ",\"title\":"@ + json_quoted(title)
        + "},\"content-available\":1,\"sound\":\"alert_default.caf\"}}"@
}

/// The GCM payload of a notification, as `serde_json` writes it.
pub open spec fn gcm_payload(title: Seq<char>, body: Seq<char>) -> Seq<char> {
    "{\"content_available\":true,\"data\":{\"message\":"@ + json_quoted(body) + ",\"title\":"@
        + json_quoted(title) + "},\"notification\":{\"body\":"@ + json_quoted(body)
        + ",\"click_action\":\"TOP_STORY_NOTIFICATION\",\"sound\":\"alert_default.caf\",\"title\":"@
        + json_quoted(title) + "},\"priority\":\"high\"}"@
}

/// The message that SNS publishes: a default text and, for each platform,
/// that platform's payload written as a JSON string.
pub open spec fn sns_payload(title: Seq<char>, body: Seq<char>) -> Seq<char> {
    "{\"APNS\":"@ + json_quoted(apns_payload(title, body)) + ",\"APNS_SANDBOX\":"@ + json_quoted(
        apns_payload(title, body),
    ) + ",\"GCM\":"@ + json_quoted(gcm_payload(title, body)) + ",\"default\":\"alert\"}"@
}

/// In `front + json_quoted(x) + back`, the string that opens right after
/// `front` reads as `x`, and `back` follows its closing quote.
proof fn lemma_field_reads_back(front: Seq<char>, x: Seq<char>, back: Seq<char>)
    ensures
        ({
            let s = front + json_quoted(x) + back;
            let k = front.len() + 1int;
            &&& s.take(k) == front.push('"')
            &&& json_string_read(s.skip(k)) == Some((x, json_escape(x).len()))
            &&& s.skip(k + json_escape(x).len() as int) == seq!['"'] + back
        }),
{
    let s = front + json_quoted(x) + back;
    let k = front.len() + 1int;
    assert(s.skip(k) =~= json_escape(x) + seq!['"'] + back);
    law_json_string_reads_back(x, back);
    assert(s.take(k) =~= front.push('"'));
    assert(s.skip(k + json_escape(x).len() as int) =~= seq!['"'] + back);
}

/// The object the SNS message is written as, for any APNS text `a` and GCM
/// text `g`.
spec fn payload_object(a: Seq<char>, g: Seq<char>) -> Seq<char> {
    "{\"APNS\":"@ + json_quoted(a) + ",\"APNS_SANDBOX\":"@ + json_quoted(a) + ",\"GCM\":"@ + json_quoted(g)
        + ",\"default\":\"alert\"}"@
}

proof fn lemma_apns_field(a: Seq<char>, g: Seq<char>)
    ensures
        payload_object(a, g).take(9) == "{\"APNS\":\""@,
        json_string_read(payload_object(a, g).skip(9)) == Some((a, json_escape(a).len())),
{
    reveal_strlit("{\"APNS\":");
    reveal_strlit("{\"APNS\":\"");
    let l1 = "{\"APNS\":"@;
    let rest = ",\"APNS_SANDBOX\":"@ + json_quoted(a) + ",\"GCM\":"@ + json_quoted(g) + ",\"default\":\"alert\"}"@;
    assert(payload_object(a, g) =~= l1 + json_quoted(a) + rest);
    lemma_field_reads_back(l1, a, rest);
    assert(l1.push('"') =~= "{\"APNS\":\""@);
}

proof fn lemma_sandbox_field(a: Seq<char>, g: Seq<char>)
    ensures
        ({
            let p = payload_object(a, g);
            let ea = json_escape(a).len() as int;
            &&& p.subrange(9 + ea, 27 + ea) == "\",\"APNS_SANDBOX\":\""@
            &&& json_string_read(p.skip(27 + ea)) == Some((a, json_escape(a).len()))
        }),
{
    reveal_strlit("{\"APNS\":");
    reveal_strlit(",\"APNS_SANDBOX\":");
    reveal_strlit("\",\"APNS_SANDBOX\":\"");
    let p = payload_object(a, g);
    let ea = json_escape(a).len() as int;
    let f2 = "{\"APNS\":"@ + json_quoted(a) + ",\"APNS_SANDBOX\":"@;
    let rest = ",\"GCM\":"@ + json_quoted(g) + ",\"default\":\"alert\"}"@;
    assert(p =~= f2 + json_quoted(a) + rest);
    assert(f2.len() == 26 + ea);
    lemma_field_reads_back(f2, a, rest);
    assert(p.subrange(9 + ea, 27 + ea) =~= seq!['"'] + ",\"APNS_SANDBOX\":"@ + seq!['"']);
    assert(seq!['"'] + ",\"APNS_SANDBOX\":"@ + seq!['"'] =~= "\",\"APNS_SANDBOX\":\""@);
}

proof fn lemma_gcm_field(a: Seq<char>, g: Seq<char>)
    ensures
        ({
            let p = payload_object(a, g);
            let ea = json_escape(a).len() as int;
            let eg = json_escape(g).len() as int;
            &&& p.subrange(27 + 2 * ea, 36 + 2 * ea) == "\",\"GCM\":\""@
            &&& json_string_read(p.skip(36 + 2 * ea)) == Some((g, json_escape(g).len()))
            &&& p.skip(36 + 2 * ea + eg) == "\",\"default\":\"alert\"}"@
        }),
{
    reveal_strlit("{\"APNS\":");
    reveal_strlit(",\"APNS_SANDBOX\":");
    reveal_strlit(",\"GCM\":");
    reveal_strlit(",\"default\":\"alert\"}");
    reveal_strlit("\",\"GCM\":\"");
    reveal_strlit("\",\"default\":\"alert\"}");
    let p = payload_object(a, g);
    let ea = json_escape(a).len() as int;
    let eg = json_escape(g).len() as int;
    let f3 = "{\"APNS\":"@ + json_quoted(a) + ",\"APNS_SANDBOX\":"@ + json_quoted(a) + ",\"GCM\":"@;
    let l4 = ",\"default\":\"alert\"}"@;
    assert(p =~= f3 + json_quoted(g) + l4);
    assert(f3.len() == 35 + 2 * ea);
    lemma_field_reads_back(f3, g, l4);
    assert(p.subrange(27 + 2 * ea, 36 + 2 * ea) =~= seq!['"'] + ",\"GCM\":"@ + seq!['"']);
    assert(seq!['"'] + ",\"GCM\":"@ + seq!['"'] =~= "\",\"GCM\":\""@);
    assert(seq!['"'] + l4 =~= "\",\"default\":\"alert\"}"@);
}

/// The SNS message reads back as an object whose `APNS` and `APNS_SANDBOX`
/// strings both read as the APNS payload, whose `GCM` string reads as the
/// GCM payload, and whose `default` is `alert`: each string opens right after
/// its key and reads back exactly.
pub proof fn law_payload_reads_back(title: Seq<char>, body: Seq<char>)
    ensures
        ({
            let p = sns_payload(title, body);
            let a = apns_payload(title, body);
            let g = gcm_payload(title, body);
            let ea = json_escape(a).len() as int;
            let eg = json_escape(g).len() as int;
            &&& p.take(9) == "{\"APNS\":\""@
            &&& json_string_read(p.skip(9)) == Some((a, json_escape(a).len()))
            &&& p.subrange(9 + ea, 27 + ea) == "\",\"APNS_SANDBOX\":\""@
            &&& json_string_read(p.skip(27 + ea)) == Some((a, json_escape(a).len()))
            &&& p.subrange(27 + 2 * ea, 36 + 2 * ea) == "\",\"GCM\":\""@
            &&& json_string_read(p.skip(36 + 2 * ea)) == Some((g, json_escape(g).len()))
            &&& p.skip(36 + 2 * ea + eg) == "\",\"default\":\"alert\"}"@
        }),
{
    let a = apns_payload(title, body);
    let g = gcm_payload(title, body);
    lemma_apns_field(a, g);
    lemma_sandbox_field(a, g);
    lemma_gcm_field(a, g);
    assert(sns_payload(title, body) == payload_object(a, g));
}

/// In `front + json_quoted(x) + sep + json_quoted(y) + back`, the first
/// string reads as `x`, `sep` stands between the two strings, the second
/// reads as `y`, and `back` follows.
proof fn lemma_two_fields(front: Seq<char>, x: Seq<char>, sep: Seq<char>, y: Seq<char>, back: Seq<char>)
    ensures
        ({
            let s = front + json_quoted(x) + sep + json_quoted(y) + back;
            let i = front.len() + 1int;
            let ex = json_escape(x).len() as int;
            let j = i + ex + sep.len() + 2;
            let ey = json_escape(y).len() as int;
            &&& s.take(i) == front.push('"')
            &&& json_string_read(s.skip(i)) == Some((x, json_escape(x).len()))
            &&& s.subrange(i + ex, j) == seq!['"'] + sep + seq!['"']
            &&& json_string_read(s.skip(j)) == Some((y, json_escape(y).len()))
            &&& s.skip(j + ey) == seq!['"'] + back
        }),
{
    let s = front + json_quoted(x) + sep + json_quoted(y) + back;
    let i = front.len() + 1int;
    let ex = json_escape(x).len() as int;
    let f2 = front + json_quoted(x) + sep;
    assert(s =~= front + json_quoted(x) + (sep + json_quoted(y) + back));
    lemma_field_reads_back(front, x, sep + json_quoted(y) + back);
    assert(s =~= f2 + json_quoted(y) + back);
    lemma_field_reads_back(f2, y, back);
    let j = i + ex + sep.len() + 2;
    assert(f2.len() + 1 == j);
    assert(s.subrange(i + ex, j) =~= seq!['"'] + sep + seq!['"']);
}

/// The APNS payload reads back as `{"aps":{"alert":{"body":..,"title":..},..}}`
/// whose body string reads as `body` and whose title string reads as `title`.
pub proof fn law_apns_reads_back(title: Seq<char>, body: Seq<char>)
    ensures
        ({
            let a = apns_payload(title, body);
            let eb = json_escape(body).len() as int;
            let et = json_escape(title).len() as int;
            &&& a.take(25) == "{\"aps\":{\"alert\":{\"body\":\""@
            &&& json_string_read(a.skip(25)) == Some((body, json_escape(body).len()))
            &&& a.subrange(25 + eb, 36 + eb) == "\",\"title\":\""@
            &&& json_string_read(a.skip(36 + eb)) == Some((title, json_escape(title).len()))
            &&& a.skip(36 + eb + et) == "\"},\"content-available\":1,\"sound\":\"alert_default.caf\"}}"@
        }),
{
    reveal_strlit("{\"aps\":{\"alert\":{\"body\":");
    reveal_strlit(",\"title\":");
    reveal_strlit("},\"content-available\":1,\"sound\":\"alert_default.caf\"}}");
    reveal_strlit("{\"aps\":{\"alert\":{\"body\":\"");
    reveal_strlit("\",\"title\":\"");
    reveal_strlit("\"},\"content-available\":1,\"sound\":\"alert_default.caf\"}}");
    let front = "{\"aps\":{\"alert\":{\"body\":"@;
    let sep = ",\"title\":"@;
    let back = "},\"content-available\":1,\"sound\":\"alert_default.caf\"}}"@;
    lemma_two_fields(front, body, sep, title, back);
    assert(apns_payload(title, body) == front + json_quoted(body) + sep + json_quoted(title) + back);
    assert(front.push('"') =~= "{\"aps\":{\"alert\":{\"body\":\""@);
    assert(seq!['"'] + sep + seq!['"'] =~= "\",\"title\":\""@);
    assert(seq!['"'] + back =~= "\"},\"content-available\":1,\"sound\":\"alert_default.caf\"}}"@);
}

proof fn lemma_gcm_data(title: Seq<char>, body: Seq<char>)
    ensures
        ({
            let g = gcm_payload(title, body);
            let eb = json_escape(body).len() as int;
            &&& g.take(45) == "{\"content_available\":true,\"data\":{\"message\":\""@
            &&& json_string_read(g.skip(45)) == Some((body, json_escape(body).len()))
            &&& g.subrange(45 + eb, 56 + eb) == "\",\"title\":\""@
            &&& json_string_read(g.skip(56 + eb)) == Some((title, json_escape(title).len()))
        }),
{
    reveal_strlit("{\"content_available\":true,\"data\":{\"message\":");
    reveal_strlit(",\"title\":");
    reveal_strlit("{\"content_available\":true,\"data\":{\"message\":\"");
    reveal_strlit("\",\"title\":\"");
    let l1 = "{\"content_available\":true,\"data\":{\"message\":"@;
    let l2 = ",\"title\":"@;
    let back = "},\"notification\":{\"body\":"@ + json_quoted(body)
        + ",\"click_action\":\"TOP_STORY_NOTIFICATION\",\"sound\":\"alert_default.caf\",\"title\":"@
        + json_quoted(title) + "},\"priority\":\"high\"}"@;
    let qb = json_quoted(body);
    let qt = json_quoted(title);
    let l3 = "},\"notification\":{\"body\":"@;
    let l4 = ",\"click_action\":\"TOP_STORY_NOTIFICATION\",\"sound\":\"alert_default.caf\",\"title\":"@;
    let l5 = "},\"priority\":\"high\"}"@;
    let head = l1 + qb + l2 + qt;
    vstd::seq_lib::lemma_concat_associative(head, l3, qb);
    vstd::seq_lib::lemma_concat_associative(head, l3 + qb, l4);
    vstd::seq_lib::lemma_concat_associative(head, l3 + qb + l4, qt);
    vstd::seq_lib::lemma_concat_associative(head, l3 + qb + l4 + qt, l5);
    assert(gcm_payload(title, body) == head + back);
    lemma_two_fields(l1, body, l2, title, back);
    assert(l1.push('"') =~= "{\"content_available\":true,\"data\":{\"message\":\""@);
    assert(seq!['"'] + l2 + seq!['"'] =~= "\",\"title\":\""@);
}

proof fn lemma_gcm_notification(title: Seq<char>, body: Seq<char>)
    ensures
        ({
            let g = gcm_payload(title, body);
            let eb = json_escape(body).len() as int;
            let et = json_escape(title).len() as int;
            &&& g.subrange(56 + eb + et, 83 + eb + et) == "\"},\"notification\":{\"body\":\""@
            &&& json_string_read(g.skip(83 + eb + et)) == Some((body, json_escape(body).len()))
            &&& g.subrange(83 + 2 * eb + et, 162 + 2 * eb + et)
                == "\",\"click_action\":\"TOP_STORY_NOTIFICATION\",\"sound\":\"alert_default.caf\",\"title\":\""@
            &&& json_string_read(g.skip(162 + 2 * eb + et)) == Some((title, json_escape(title).len()))
            &&& g.skip(162 + 2 * eb + 2 * et) == "\"},\"priority\":\"high\"}"@
        }),
{
    reveal_strlit("{\"content_available\":true,\"data\":{\"message\":");
    reveal_strlit(",\"title\":");
    reveal_strlit("},\"notification\":{\"body\":");
    reveal_strlit(",\"click_action\":\"TOP_STORY_NOTIFICATION\",\"sound\":\"alert_default.caf\",\"title\":");
    reveal_strlit("},\"priority\":\"high\"}");
    reveal_strlit("\"},\"notification\":{\"body\":\"");
    reveal_strlit("\",\"click_action\":\"TOP_STORY_NOTIFICATION\",\"sound\":\"alert_default.caf\",\"title\":\"");
    reveal_strlit("\"},\"priority\":\"high\"}");
    let l3 = "},\"notification\":{\"body\":"@;
    let l4 = ",\"click_action\":\"TOP_STORY_NOTIFICATION\",\"sound\":\"alert_default.caf\",\"title\":"@;
    let l5 = "},\"priority\":\"high\"}"@;
    let head = "{\"content_available\":true,\"data\":{\"message\":"@ + json_quoted(body) + ",\"title\":"@
        + json_quoted(title);
    let eb = json_escape(body).len() as int;
    let et = json_escape(title).len() as int;
    assert(head.len() == 57 + eb + et);
    let front = head + l3;
    assert(gcm_payload(title, body) == front + json_quoted(body) + l4 + json_quoted(title) + l5);
    lemma_two_fields(front, body, l4, title, l5);
    let g = gcm_payload(title, body);
    assert(g.subrange(56 + eb + et, 83 + eb + et) =~= front.push('"').skip(56 + eb + et));
    assert(front.push('"').skip(56 + eb + et) =~= "\"},\"notification\":{\"body\":\""@);
    assert(seq!['"'] + l4 + seq!['"'] =~= "\",\"click_action\":\"TOP_STORY_NOTIFICATION\",\"sound\":\"alert_default.caf\",\"title\":\""@);
    assert(seq!['"'] + l5 =~= "\"},\"priority\":\"high\"}"@);
}

/// The GCM payload reads back with `data.message` and `notification.body`
/// reading as `body`, and `data.title` and `notification.title` reading as
/// `title`: each string opens right after its key.
pub proof fn law_gcm_reads_back(title: Seq<char>, body: Seq<char>)
    ensures
        ({
            let g = gcm_payload(title, body);
            let eb = json_escape(body).len() as int;
            let et = json_escape(title).len() as int;
            &&& g.take(45) == "{\"content_available\":true,\"data\":{\"message\":\""@
            &&& json_string_read(g.skip(45)) == Some((body, json_escape(body).len()))
            &&& g.subrange(45 + eb, 56 + eb) == "\",\"title\":\""@
            &&& json_string_read(g.skip(56 + eb)) == Some((title, json_escape(title).len()))
            &&& g.subrange(56 + eb + et, 83 + eb + et) == "\"},\"notification\":{\"body\":\""@
            &&& json_string_read(g.skip(83 + eb + et)) == Some((body, json_escape(body).len()))
            &&& g.subrange(83 + 2 * eb + et, 162 + 2 * eb + et)
                == "\",\"click_action\":\"TOP_STORY_NOTIFICATION\",\"sound\":\"alert_default.caf\",\"title\":\""@
            &&& json_string_read(g.skip(162 + 2 * eb + et)) == Some((title, json_escape(title).len()))
            &&& g.skip(162 + 2 * eb + 2 * et) == "\"},\"priority\":\"high\"}"@
        }),
{
    lemma_gcm_data(title, body);
    lemma_gcm_notification(title, body);
}

impl SnsMessage {
    pub fn new(title: &str, body: &str) -> (r: SnsMessage)
        ensures
            r.title@ == title@,
            r.body@ == body@,
    {
        let title = String::from_str(title);
        let body = String::from_str(body);
        SnsMessage { body, title }
    }

    fn apns_json(&self) -> (r: String)
        ensures
            r@ == apns_payload(self.title@, self.body@),
    {
        let mut r = String::from_str("{\"aps\":{\"alert\":{\"body\":");
        r.append(json_string(self.body.as_str()).as_str());
        r.append(",\"title\":");
        r.append(json_string(self.title.as_str()).as_str());
        r.append("},\"content-available\":1,\"sound\":\"alert_default.caf\"}}");
        r
    }

    fn gcm_json(&self) -> (r: String)
        ensures
            r@ == gcm_payload(self.title@, self.body@),
    {
        let mut r = String::from_str("{\"content_available\":true,\"data\":{\"message\":");
        r.append(json_string(self.body.as_str()).as_str());
        r.append(",\"title\":");
        r.append(json_string(self.title.as_str()).as_str());
        r.append("},\"notification\":{\"body\":");
        r.append(json_string(self.body.as_str()).as_str());
        r.append(",\"click_action\":\"TOP_STORY_NOTIFICATION\",\"sound\":\"alert_default.caf\",\"title\":");
        r.append(json_string(self.title.as_str()).as_str());
        r.append("},\"priority\":\"high\"}");
        r
    }

    /// The message to publish to SNS: a default text and the APNS,
    /// APNS_SANDBOX and GCM payloads, each written as a JSON string.
    pub fn to_json_payload(&self) -> (r: String)
        ensures
            r@ == sns_payload(self.title@, self.body@),
    {
        let apns = self.apns_json();
        let gcm = self.gcm_json();
        let mut r = String::from_str("{\"APNS\":");
        r.append(json_string(apns.as_str()).as_str());
        r.append(",\"APNS_SANDBOX\":");
        r.append(json_string(apns.as_str()).as_str());
        r.append(",\"GCM\":");
        r.append(json_string(gcm.as_str()).as_str());
        r.append(",\"default\":\"alert\"}");
        r
    }
}

/// The notification for an alert: its title and body.
pub fn message_for_event(event: &AlertEvent) -> (m: SnsMessage)
    ensures
        m.title@ == alert_title(text_of(event.alert_name), event.alert_type@),
        m.body@ == alert_body(text_of(event.unit_name)),
{
    let title = event.title();
    let body = event.body();
    SnsMessage::new(title.as_str(), body.as_str())
}

/// Why a publish to SNS failed.
#[derive(Clone, Debug)]
pub enum SnsError {
    InvalidEndpoint(String),
    Throttled,
    AuthError(String),
    NetworkError(String),
    Unknown(String),
}

/// An SNS error with its text taken as a character sequence.
pub enum SnsErrorView {
    InvalidEndpoint(Seq<char>),
    Throttled,
    AuthError(Seq<char>),
    NetworkError(Seq<char>),
    Unknown(Seq<char>),
}

impl View for SnsError {
    type V = SnsErrorView;

    open spec fn view(&self) -> SnsErrorView {
        match self {
            SnsError::InvalidEndpoint(m) => SnsErrorView::InvalidEndpoint(m@),
            SnsError::Throttled => SnsErrorView::Throttled,
            SnsError::AuthError(m) => SnsErrorView::AuthError(m@),
            SnsError::NetworkError(m) => SnsErrorView::NetworkError(m@),
            SnsError::Unknown(m) => SnsErrorView::Unknown(m@),
        }
    }
}

/// The class of an SNS error, read from the error's text: an invalid or
/// disabled endpoint, throttling, a refused authorization, a network
/// failure, or anything else.
pub open spec fn classify_error(text: Seq<char>) -> SnsErrorView {
    if has_infix(text, "InvalidEndpointException"@) || has_infix(text, "EndpointDisabled"@) {
        SnsErrorView::InvalidEndpoint(text)
    } else if has_infix(text, "ThrottlingException"@) {
        SnsErrorView::Throttled
    } else if has_infix(text, "AuthorizationError"@) || has_infix(text, "AccessDenied"@) {
        SnsErrorView::AuthError(text)
    } else if has_infix(text, "NetworkingError"@) {
        SnsErrorView::NetworkError(text)
    } else {
        SnsErrorView::Unknown(text)
    }
}

/// The text of an SNS error, as it is shown.
pub open spec fn error_text(e: SnsErrorView) -> Seq<char> {
    match e {
        SnsErrorView::InvalidEndpoint(m) => "InvalidEndpoint: "@ + m,
        SnsErrorView::Throttled => "Throttled"@,
        SnsErrorView::AuthError(m) => "AuthError: "@ + m,
        SnsErrorView::NetworkError(m) => "NetworkError: "@ + m,
        SnsErrorView::Unknown(m) => "Unknown: "@ + m,
    }
}

impl SnsError {
    /// Classifies the text of a failed publish.
    pub fn classify(text: &str) -> (r: SnsError)
        ensures
            r@ == classify_error(text@),
    {
        if contains_text(text, "InvalidEndpointException") || contains_text(text, "EndpointDisabled") {
            SnsError::InvalidEndpoint(String::from_str(text))
        } else if contains_text(text, "ThrottlingException") {
            SnsError::Throttled
        } else if contains_text(text, "AuthorizationError") || contains_text(text, "AccessDenied") {
            SnsError::AuthError(String::from_str(text))
        } else if contains_text(text, "NetworkingError") {
            SnsError::NetworkError(String::from_str(text))
        } else {
            SnsError::Unknown(String::from_str(text))
        }
    }

    /// The error as text.
    pub fn describe(&self) -> (r: String)
        ensures
            r@ == error_text(self@),
    {
        match self {
            SnsError::InvalidEndpoint(m) => String::from_str("InvalidEndpoint: ").concat(m.as_str()),
            SnsError::Throttled => String::from_str("Throttled"),
            SnsError::AuthError(m) => String::from_str("AuthError: ").concat(m.as_str()),
            SnsError::NetworkError(m) => String::from_str("NetworkError: ").concat(m.as_str()),
            SnsError::Unknown(m) => String::from_str("Unknown: ").concat(m.as_str()),
        }
    }
}

/// The push channel of an SNS platform endpoint.
#[derive(Clone, Copy, Debug, PartialEq, Eq, Structural)]
pub enum EndpointChannel {
    Gcm,
    Apns,
    ApnsSandbox,
}

/// The channel an endpoint ARN names (`...:endpoint/<CHANNEL>/<app>/<id>`).
pub open spec fn channel_of(arn: Seq<char>) -> Option<EndpointChannel> {
    if has_infix(arn, ":endpoint/GCM/"@) {
        Some(EndpointChannel::Gcm)
    } else if has_infix(arn, ":endpoint/APNS_SANDBOX/"@) {
        Some(EndpointChannel::ApnsSandbox)
    } else if has_infix(arn, ":endpoint/APNS/"@) {
        Some(EndpointChannel::Apns)
    } else {
        None
    }
}

/// A device's endpoint can carry a notification to it: an Android device
/// needs a GCM endpoint, an iOS device an APNS, APNS_SANDBOX or GCM one;
/// the platform is read ignoring ASCII case, and other platforms are not
/// served.
pub open spec fn endpoint_supported(platform: Seq<char>, arn: Seq<char>) -> bool {
    if same_ignoring_ascii_case(platform, "android"@) {
        channel_of(arn) == Some(EndpointChannel::Gcm)
    } else if same_ignoring_ascii_case(platform, "ios"@) {
        channel_of(arn) is Some
    } else {
        false
    }
}

impl UserDevice {
    /// The channel the device's endpoint ARN names.
    pub fn endpoint_channel(&self) -> (r: Option<EndpointChannel>)
        ensures
            r == channel_of(self.endpoint_arn@),
    {
        let arn = self.endpoint_arn.as_str();
        if contains_text(arn, ":endpoint/GCM/") {
            Some(EndpointChannel::Gcm)
        } else if contains_text(arn, ":endpoint/APNS_SANDBOX/") {
            Some(EndpointChannel::ApnsSandbox)
        } else if contains_text(arn, ":endpoint/APNS/") {
            Some(EndpointChannel::Apns)
        } else {
            None
        }
    }

    /// Whether the device's endpoint suits its platform.
    pub fn endpoint_is_supported_for_platform(&self) -> (r: bool)
        ensures
            r == endpoint_supported(self.platform@, self.endpoint_arn@),
    {
        let channel = self.endpoint_channel();
        if eq_ignore_ascii_case(self.platform.as_str(), "android") {
            match channel {
                Some(EndpointChannel::Gcm) => true,
                _ => false,
            }
        } else if eq_ignore_ascii_case(self.platform.as_str(), "ios") {
            channel.is_some()
        } else {
            false
        }
    }
}

} // verus!
