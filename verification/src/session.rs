//! Conversation sessions: an identified, append-only history of messages.

use vstd::prelude::*;

verus! {

/// An instant, as seconds and nanoseconds since the Unix epoch (UTC).
#[derive(Clone, Copy, Debug, PartialEq, Eq, Structural)]
pub struct Timestamp {
    pub secs: i64,
    pub nanos: u32,
}

impl Timestamp {
    /// A clock reading: not before the epoch, nanoseconds below one second.
    pub open spec fn wf(&self) -> bool {
        self.secs >= 0 && self.nanos < 1_000_000_000
    }
}

/// The function that a tool call asks for, with its arguments as JSON text.
#[derive(Clone, Debug)]
pub struct FunctionCall {
    pub name: String,
    pub arguments: String,
}

/// A tool call that the model requested in an assistant message.
#[derive(Clone, Debug)]
pub struct ToolCall {
    pub id: String,
    pub kind: String,
    pub function: FunctionCall,
}

/// One message of a conversation.
#[derive(Clone, Debug)]
pub struct Message {
    pub role: String,
    pub content: Option<String>,
    pub tool_calls: Option<Vec<ToolCall>>,
    pub tool_call_id: Option<String>,
}

/// A conversation: its identifier, its messages in order, when it was created
/// and last changed, and an optional title and model name.
#[derive(Clone, Debug)]
pub struct Session {
    pub id: String,
    pub messages: Vec<Message>,
    pub created_at: Timestamp,
    pub updated_at: Timestamp,
    pub title: Option<String>,
    pub model: Option<String>,
}

/// The text of an optional string.
pub open spec fn opt_text(o: Option<String>) -> Option<Seq<char>> {
    match o {
        Some(s) => Some(s@),
        None => None,
    }
}

/// The text of an optional string slice.
pub open spec fn opt_str_text(o: Option<&str>) -> Option<Seq<char>> {
    match o {
        Some(s) => Some(s@),
        None => None,
    }
}

/// A lowercase hexadecimal digit.
pub open spec fn is_lower_hex(c: char) -> bool {
    ('0' <= c && c <= '9') || ('a' <= c && c <= 'f')
}

/// `s` is a version 4, RFC 4122 variant UUID in lowercase hyphenated form:
/// `xxxxxxxx-xxxx-4xxx-yxxx-xxxxxxxxxxxx` with `y` one of `8`, `9`, `a`, `b`.
pub open spec fn is_uuid_v4_text(s: Seq<char>) -> bool {
    &&& s.len() == 36
    &&& forall|i: int|
        0 <= i < 36 ==> if i == 8 || i == 13 || i == 18 || i == 23 {
            #[trigger] s[i] == '-'
        } else {
            is_lower_hex(s[i])
        }
    &&& s[14] == '4'
    &&& (s[19] == '8' || s[19] == '9' || s[19] == 'a' || s[19] == 'b')
}

/// Calls `uuid::Uuid::new_v4` and formats the result with `to_string`.
/// Trusted: the text is a lowercase hyphenated UUID whose version nibble is 4
/// and whose variant bits are `10`, as the crate's source sets and formats
/// them; the random bits are left unsaid. The call panics if the system
/// cannot supply random bytes.
#[verifier::external_body]
fn new_uuid_v4() -> (id: String)
    ensures
        is_uuid_v4_text(id@),
{
    uuid::Uuid::new_v4().to_string()
}

/// Calls `chrono::Utc::now` and reads the instant with `timestamp` and
/// `timestamp_subsec_nanos`. Trusted: the reading is not before the epoch and
/// its nanoseconds are below one second, as the source derives it from the
/// system clock; which instant it is is left unsaid. The call panics if the
/// system clock is set before the epoch.
#[verifier::external_body]
fn utc_now() -> (t: Timestamp)
    ensures
        t.wf(),
{
    let now = chrono::Utc::now();
    Timestamp { secs: now.timestamp(), nanos: now.timestamp_subsec_nanos() }
}

fn optional_string(o: Option<&str>) -> (r: Option<String>)
    ensures
        opt_text(r) == opt_str_text(o),
{
    match o {
        Some(s) => Some(s.to_string()),
        None => None,
    }
}

impl Session {
    /// A new session with a fresh random identifier, no messages, the current
    /// time as creation and update time, and the given title and model.
    pub fn new(title: Option<&str>, model: Option<&str>) -> (s: Session)
        ensures
            is_uuid_v4_text(s.id@),
            s.messages@.len() == 0,
            s.created_at.wf(),
            s.updated_at.wf(),
            opt_text(s.title) == opt_str_text(title),
            opt_text(s.model) == opt_str_text(model),
    {
        let id = new_uuid_v4();
        let created_at = utc_now();
        let updated_at = utc_now();
        Session::with_identity(id, created_at, updated_at, title, model)
    }

    /// A session with no messages and the given identity, times, title and model.
    pub fn with_identity(
        id: String,
        created_at: Timestamp,
        updated_at: Timestamp,
        title: Option<&str>,
        model: Option<&str>,
    ) -> (s: Session)
        ensures
            s.id == id,
            s.messages@.len() == 0,
            s.created_at == created_at,
            s.updated_at == updated_at,
            opt_text(s.title) == opt_str_text(title),
            opt_text(s.model) == opt_str_text(model),
    {
        Session {
            id,
            messages: Vec::new(),
            created_at,
            updated_at,
            title: optional_string(title),
            model: optional_string(model),
        }
    }

    /// The fields that no operation but an explicit assignment changes.
    pub open spec fn same_identity(&self, other: &Session) -> bool {
        &&& self.id == other.id
        &&& self.created_at == other.created_at
        &&& self.title == other.title
        &&& self.model == other.model
    }

    /// `after` is `before` with `msg` appended and its identity kept.
    pub open spec fn appends(before: &Session, after: &Session, msg: Message) -> bool {
        &&& after.messages@ == before.messages@.push(msg)
        &&& after.same_identity(before)
    }

    /// Appends `msg` to the history and stamps the update time with the
    /// current time.
    pub fn add_message(&mut self, msg: Message)
        ensures
            Session::appends(old(self), final(self), msg),
            final(self).updated_at.wf(),
    {
        self.messages.push(msg);
        let now = utc_now();
        self.stamp(now);
    }

    /// Appends `msg` to the history and stamps the update time with `now`.
    pub fn add_message_at(&mut self, msg: Message, now: Timestamp)
        ensures
            Session::appends(old(self), final(self), msg),
            final(self).updated_at == now,
    {
        self.messages.push(msg);
        self.stamp(now);
    }

    /// Sets the update time to `now`, leaving everything else as it is.
    pub fn stamp(&mut self, now: Timestamp)
        ensures
            final(self).messages == old(self).messages,
            final(self).same_identity(old(self)),
            final(self).updated_at == now,
    {
        self.updated_at = now;
    }

    /// Stamps the update time with the current time before the session is
    /// written out, and gives the name of its file: the identifier followed
    /// by `.json`.
    pub fn prepare_save(&mut self) -> (file_name: String)
        ensures
            file_name@ == old(self).id@ + ".json"@,
            final(self).messages == old(self).messages,
            final(self).same_identity(old(self)),
            final(self).updated_at.wf(),
    {
        let now = utc_now();
        self.prepare_save_at(now)
    }

    /// Stamps the update time with `now` before the session is written out,
    /// and gives the name of its file: the identifier followed by `.json`.
    pub fn prepare_save_at(&mut self, now: Timestamp) -> (file_name: String)
        ensures
            file_name@ == old(self).id@ + ".json"@,
            final(self).messages == old(self).messages,
            final(self).same_identity(old(self)),
            final(self).updated_at == now,
    {
        self.stamp(now);
        let mut name = self.id.clone();
        name.append(".json");
        name
    }
}

/// A session that starts with no messages and then has `msgs` appended, one
/// call after another (`sessions[i + 1]` is `sessions[i]` with `msgs[i]`
/// appended), holds exactly `msgs`, in call order, and keeps the identity it
/// started with.
pub proof fn law_history_is_the_appended_messages(sessions: Seq<Session>, msgs: Seq<Message>)
    requires
        sessions.len() == msgs.len() + 1,
        sessions[0].messages@.len() == 0,
        forall|i: int|
            0 <= i < msgs.len() ==> Session::appends(
                &sessions[i],
                &#[trigger] sessions[i + 1],
                msgs[i],
            ),
    ensures
        sessions.last().messages@ == msgs,
        sessions.last().same_identity(&sessions[0]),
    decreases msgs.len(),
{
    if msgs.len() == 0 {
        assert(sessions[0].messages@ =~= msgs);
    } else {
        let k = msgs.len() - 1;
        let front = sessions.drop_last();
        let prefix = msgs.drop_last();
        assert forall|i: int| 0 <= i < prefix.len() implies Session::appends(
            &front[i],
            &#[trigger] front[i + 1],
            prefix[i],
        ) by {
            assert(front[i] == sessions[i]);
            assert(front[i + 1] == sessions[i + 1]);
        }
        law_history_is_the_appended_messages(front, prefix);
        assert(front.last() == sessions[k]);
        assert(Session::appends(&sessions[k], &sessions[k + 1], msgs[k]));
        assert(sessions.last() == sessions[k + 1]);
        assert(msgs =~= prefix.push(msgs[k]));
    }
}

} // verus!
