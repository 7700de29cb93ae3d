//! Conversation and agent context kept for LLM interactions: a bounded
//! message history with its token estimate, agent state and tools.

use vstd::prelude::*;
use vstd::utf8::{encode_utf8, is_char_boundary};
use crate::llm::{estimate_token_count, tokens_for, utf8_prefix, ContextMessageRole};
use crate::clock::{now_rfc3339, random_uuid_text};
use crate::symbolic_program::str_eq;
use crate::text::{copy_string, push_str};

verus! {

/// A message in a conversation.
#[derive(Debug, Clone)]
pub struct ConversationMessage {
    /// Message id.
    pub id: String,
    /// Role of the sender.
    pub role: ContextMessageRole,
    /// Message content.
    pub content: String,
    /// When it was added (RFC 3339).
    pub timestamp: String,
    /// Token estimate of the content.
    pub token_count: usize,
    /// Message metadata: names and JSON values.
    pub metadata: Vec<(String, String)>,
}

/// Conversation context for maintaining dialogue state.
#[derive(Debug, Clone)]
pub struct ConversationContext {
    /// Conversation id.
    pub id: String,
    /// Messages, oldest first.
    pub messages: Vec<ConversationMessage>,
    /// Maximum number of messages to keep.
    pub max_messages: usize,
    /// Total token estimate.
    pub token_count: usize,
    /// Conversation metadata: names and JSON values.
    pub metadata: Vec<(String, String)>,
}

/// The sum of the messages' token estimates.
pub open spec fn sum_tokens(m: Seq<ConversationMessage>) -> nat
    decreases m.len(),
{
    if m.len() == 0 {
        0
    } else {
        sum_tokens(m.drop_last()) + m.last().token_count as nat
    }
}

/// `a - b`, or 0 when `b` is larger.
pub open spec fn sat_sub(a: nat, b: nat) -> nat {
    if a >= b { (a - b) as nat } else { 0 }
}

/// Dropping the oldest messages while more than `max` are kept, taking
/// each dropped estimate off the count (down to 0).
pub open spec fn trim_front(m: Seq<ConversationMessage>, count: nat, max: nat) -> (Seq<ConversationMessage>, nat)
    decreases m.len(),
{
    if m.len() > max && m.len() > 0 {
        trim_front(m.drop_first(), sat_sub(count, m[0].token_count as nat), max)
    } else {
        (m, count)
    }
}

/// The `{:?}` text of a role.
pub open spec fn role_debug(r: ContextMessageRole) -> Seq<char> {
    match r {
        ContextMessageRole::System => "System"@,
        ContextMessageRole::User => "User"@,
        ContextMessageRole::Assistant => "Assistant"@,
        ContextMessageRole::Tool => "Tool"@,
    }
}

/// The content shown in a summary: the first 100 bytes and "..." when the
/// content is longer, else all of it.
pub open spec fn shown_content(c: Seq<char>) -> Seq<u8> {
    if encode_utf8(c).len() > 100 {
        encode_utf8(c).subrange(0, 100) + encode_utf8("..."@)
    } else {
        encode_utf8(c)
    }
}

/// The summary lines of the messages, as bytes.
pub open spec fn summary_bytes(m: Seq<ConversationMessage>) -> Seq<u8>
    decreases m.len(),
{
    if m.len() == 0 {
        Seq::empty()
    } else {
        summary_bytes(m.drop_last()) + encode_utf8(role_debug(m.last().role)) + encode_utf8(": "@) + shown_content(
            m.last().content@,
        ) + encode_utf8("\n"@)
    }
}

/// The last `count` messages (all of them when fewer).
pub open spec fn recent(m: Seq<ConversationMessage>, count: nat) -> Seq<ConversationMessage> {
    if count >= m.len() {
        m
    } else {
        m.subrange(m.len() - count, m.len() as int)
    }
}

/// Encoding a concatenation concatenates the encodings.
proof fn lemma_encode_append(a: Seq<char>, b: Seq<char>)
    ensures
        encode_utf8(a + b) == encode_utf8(a) + encode_utf8(b),
    decreases a.len(),
{
    if a.len() > 0 {
        assert((a + b).drop_first() =~= a.drop_first() + b);
        lemma_encode_append(a.drop_first(), b);
        assert(encode_utf8(a + b) =~= encode_scalar_of(a[0]) + encode_utf8(a.drop_first() + b));
    } else {
        assert(a + b =~= b);
    }
}

/// The encoding of one character.
pub open spec fn encode_scalar_of(c: char) -> Seq<u8> {
    vstd::utf8::encode_scalar(c as u32)
}

/// The sum splits off the first message.
proof fn lemma_sum_drop_first(m: Seq<ConversationMessage>)
    requires
        m.len() > 0,
    ensures
        sum_tokens(m) == sum_tokens(m.drop_first()) + m[0].token_count,
    decreases m.len(),
{
    let d = m.drop_last();
    if m.len() > 1 {
        lemma_sum_drop_first(d);
        assert(d.drop_first() =~= m.drop_first().drop_last());
        assert(m.drop_first().last() == m.last());
        assert(d[0] == m[0]);
    } else {
        assert(m.drop_first() =~= Seq::<ConversationMessage>::empty());
        assert(d =~= Seq::<ConversationMessage>::empty());
    }
}

/// Trimming keeps the count equal to the sum when it starts so.
proof fn lemma_trim_keeps_sum(m: Seq<ConversationMessage>, count: nat, max: nat)
    requires
        count == sum_tokens(m),
    ensures
        trim_front(m, count, max).1 == sum_tokens(trim_front(m, count, max).0),
    decreases m.len(),
{
    if m.len() > max && m.len() > 0 {
        lemma_sum_drop_first(m);
        lemma_trim_keeps_sum(m.drop_first(), sat_sub(count, m[0].token_count as nat), max);
    }
}

/// Trimming keeps the newest messages: the last `max` of them, or all when
/// there are no more.
pub proof fn lemma_trim_keeps_newest(m: Seq<ConversationMessage>, count: nat, max: nat)
    ensures
        trim_front(m, count, max).0 == recent(m, max),
    decreases m.len(),
{
    if m.len() > max && m.len() > 0 {
        lemma_trim_keeps_newest(m.drop_first(), sat_sub(count, m[0].token_count as nat), max);
        if max >= m.drop_first().len() {
            assert(m.drop_first() =~= m.subrange(m.len() - max, m.len() as int));
        } else {
            assert(m.drop_first().subrange(m.drop_first().len() - max, m.drop_first().len() as int) =~= m.subrange(
                m.len() - max,
                m.len() as int,
            ));
        }
    }
}

impl ConversationContext {
    /// An empty conversation with a fresh id, keeping at most 50 messages.
    pub fn new() -> (c: Self)
        ensures
            c.messages@.len() == 0,
            c.max_messages == 50,
            c.token_count == 0,
            c.metadata@.len() == 0,
    {
        ConversationContext {
            id: random_uuid_text(),
            messages: Vec::new(),
            max_messages: 50,
            token_count: 0,
            metadata: Vec::new(),
        }
    }

    /// Adds a message with a fresh id and its token estimate, then drops the
    /// oldest messages beyond the maximum (see `trim_front`); returns the id.
    pub fn add_message(&mut self, role: ContextMessageRole, content: String) -> (id: String)
        requires
            old(self).token_count + tokens_for(encode_utf8(content@).len()) <= usize::MAX,
        ensures
            exists|m: ConversationMessage|
                {
                    &&& m.id@ == id@
                    &&& m.role == role
                    &&& m.content == content
                    &&& m.token_count == tokens_for(encode_utf8(content@).len())
                    &&& m.metadata@.len() == 0
                    &&& #[trigger] trim_front(
                        old(self).messages@.push(m),
                        (old(self).token_count + m.token_count) as nat,
                        old(self).max_messages as nat,
                    ) == (final(self).messages@, final(self).token_count as nat)
                    &&& final(self).messages@ == recent(old(self).messages@.push(m), old(self).max_messages as nat)
                },
            final(self).max_messages == old(self).max_messages,
            final(self).id == old(self).id,
            final(self).metadata == old(self).metadata,
            old(self).token_count == sum_tokens(old(self).messages@) ==> final(self).token_count == sum_tokens(
                final(self).messages@,
            ),
    {
        let message_id = random_uuid_text();
        let tokens = estimate_token_count(content.as_str());
        let ghost old_msgs = self.messages@;
        let message = ConversationMessage {
            id: copy_string(&message_id),
            role,
            content,
            timestamp: now_rfc3339(),
            token_count: tokens,
            metadata: Vec::new(),
        };
        let ghost m = message;
        self.messages.push(message);
        self.token_count = self.token_count + tokens;
        proof {
            if old(self).token_count == sum_tokens(old_msgs) {
                assert(self.messages@.drop_last() =~= old_msgs);
            }
        }
        let ghost start = (self.messages@, self.token_count as nat);
        while self.messages.len() > self.max_messages
            invariant
                trim_front(start.0, start.1, self.max_messages as nat) == trim_front(
                    self.messages@,
                    self.token_count as nat,
                    self.max_messages as nat,
                ),
                self.max_messages == old(self).max_messages,
                self.id == old(self).id,
                self.metadata == old(self).metadata,
            decreases self.messages@.len(),
        {
            let ghost before = self.messages@;
            let removed = self.messages.remove(0);
            assert(self.messages@ =~= before.drop_first());
            self.token_count = if self.token_count >= removed.token_count {
                self.token_count - removed.token_count
            } else {
                0
            };
        }
        proof {
            if old(self).token_count == sum_tokens(old_msgs) {
                lemma_trim_keeps_sum(start.0, start.1, old(self).max_messages as nat);
            }
            assert(start.0 == old(self).messages@.push(m));
            lemma_trim_keeps_newest(start.0, start.1, old(self).max_messages as nat);
            assert(trim_front(
                old(self).messages@.push(m),
                (old(self).token_count + m.token_count) as nat,
                old(self).max_messages as nat,
            ) == (self.messages@, self.token_count as nat));
        }
        message_id
    }

    /// The last `count` messages (all of them when fewer).
    pub fn get_recent_messages(&self, count: usize) -> (r: &[ConversationMessage])
        ensures
            r@ == recent(self.messages@, count as nat),
    {
        let n = self.messages.len();
        let start = if n >= count { n - count } else { 0 };
        let r = vstd::slice::slice_subrange(self.messages.as_slice(), start, n);
        proof {
            if count >= n {
                assert(self.messages@.subrange(0, n as int) =~= self.messages@);
            }
        }
        r
    }

    /// Removes every message and resets the count.
    pub fn clear(&mut self)
        ensures
            final(self).messages@.len() == 0,
            final(self).token_count == 0,
            final(self).id == old(self).id,
            final(self).max_messages == old(self).max_messages,
            final(self).metadata == old(self).metadata,
    {
        self.messages.clear();
        self.token_count = 0;
    }

    /// A summary of the last five messages, one `Role: content` line each
    /// with long contents cut to 100 bytes; a fixed text when empty.
    pub fn get_summary(&self) -> (s: String)
        requires
            forall|i: int|
                0 <= i < recent(self.messages@, 5).len() && encode_utf8(
                    (#[trigger] recent(self.messages@, 5)[i]).content@,
                ).len() > 100 ==> is_char_boundary(encode_utf8(recent(self.messages@, 5)[i].content@), 100),
        ensures
            self.messages@.len() == 0 ==> s@ == "No conversation history"@,
            self.messages@.len() > 0 ==> encode_utf8(s@) == summary_bytes(recent(self.messages@, 5)),
    {
        if self.messages.len() == 0 {
            return String::from_str("No conversation history");
        }
        let msgs = self.get_recent_messages(5);
        let mut summary = String::new();
        let mut i: usize = 0;
        assert(encode_utf8(summary@) =~= Seq::<u8>::empty());
        while i < msgs.len()
            invariant
                i <= msgs@.len(),
                msgs@ == recent(self.messages@, 5),
                forall|k: int|
                    0 <= k < msgs@.len() && encode_utf8((#[trigger] msgs@[k]).content@).len() > 100
                        ==> is_char_boundary(encode_utf8(msgs@[k].content@), 100),
                encode_utf8(summary@) == summary_bytes(msgs@.subrange(0, i as int)),
            decreases msgs@.len() - i,
        {
            let m = &msgs[i];
            let ghost before = summary@;
            let role = match m.role {
                ContextMessageRole::System => "System",
                ContextMessageRole::User => "User",
                ContextMessageRole::Assistant => "Assistant",
                ContextMessageRole::Tool => "Tool",
            };
            let ghost s0 = summary@;
            push_str(&mut summary, role);
            proof { lemma_encode_append(s0, role@); }
            let ghost s1 = summary@;
            push_str(&mut summary, ": ");
            proof { lemma_encode_append(s1, ": "@); }
            let ghost s2 = summary@;
            let len = m.content.as_str().as_bytes().len();
            if len > 100 {
                let head = utf8_prefix(m.content.as_str(), 100);
                push_str(&mut summary, head.as_str());
                proof { lemma_encode_append(s2, head@); }
                let ghost s3 = summary@;
                push_str(&mut summary, "...");
                proof {
                    lemma_encode_append(s3, "..."@);
                    assert(encode_utf8(summary@) =~= encode_utf8(s2) + shown_content(m.content@));
                }
            } else {
                push_str(&mut summary, m.content.as_str());
                proof {
                    lemma_encode_append(s2, m.content@);
                }
            }
            let ghost s4 = summary@;
            push_str(&mut summary, "\n");
            proof {
                lemma_encode_append(s4, "\n"@);
                assert(msgs@.subrange(0, i + 1).drop_last() =~= msgs@.subrange(0, i as int));
                assert(msgs@.subrange(0, i + 1).last() == msgs@[i as int]);
                assert(role@ == role_debug(m.role));
                assert(encode_utf8(summary@) =~= encode_utf8(before) + encode_utf8(role_debug(m.role)) + encode_utf8(
                    ": "@,
                ) + shown_content(m.content@) + encode_utf8("\n"@));
            }
            i = i + 1;
        }
        assert(msgs@.subrange(0, msgs@.len() as int) =~= msgs@);
        summary
    }
}

impl Default for ConversationContext {
    fn default() -> (c: Self)
        ensures
            c.messages@.len() == 0,
            c.max_messages == 50,
            c.token_count == 0,
    {
        ConversationContext::new()
    }
}

/// Definition of a tool the model may call.
#[derive(Debug, Clone)]
pub struct ToolDefinition {
    /// Tool name.
    pub name: String,
    /// Tool description.
    pub description: String,
    /// Input schema (JSON Schema text).
    pub input_schema: String,
    /// Output schema (JSON Schema text).
    pub output_schema: String,
    /// Whether the tool is enabled.
    pub enabled: bool,
}

/// Context for an agent's model calls: its recent events, state variables,
/// tools and conversation.
#[derive(Debug, Clone)]
pub struct AgentContext<E> {
    /// The agent id.
    pub agent_id: u128,
    /// The profile id.
    pub profile_id: u128,
    /// Recent events, oldest first.
    pub recent_events: Vec<E>,
    /// State variables: names and JSON values, each name once.
    pub state: Vec<(String, String)>,
    /// Tools offered to the model.
    pub available_tools: Vec<ToolDefinition>,
    /// Conversation history.
    pub conversation: ConversationContext,
    /// Session metadata: names and JSON values.
    pub metadata: Vec<(String, String)>,
}

/// The most events an agent context keeps.
pub const MAX_RECENT_EVENTS: usize = 10;

/// The value stored under `key`: the first entry with that name.
pub open spec fn entry_value(s: Seq<(Seq<char>, Seq<char>)>, key: Seq<char>) -> Option<Seq<char>>
    decreases s.len(),
{
    if s.len() == 0 {
        None
    } else if s[0].0 == key {
        Some(s[0].1)
    } else {
        entry_value(s.drop_first(), key)
    }
}

/// The state entries as pairs of texts.
pub open spec fn entries(s: Seq<(String, String)>) -> Seq<(Seq<char>, Seq<char>)> {
    s.map_values(|e: (String, String)| (e.0@, e.1@))
}

/// Appending an entry changes only what was missing.
proof fn lemma_entry_push(s: Seq<(Seq<char>, Seq<char>)>, e: (Seq<char>, Seq<char>), q: Seq<char>)
    ensures
        entry_value(s.push(e), q) == (match entry_value(s, q) {
            Some(v) => Some(v),
            None => if e.0 == q {
                Some(e.1)
            } else {
                None
            },
        }),
    decreases s.len(),
{
    if s.len() > 0 {
        assert(s.push(e).drop_first() =~= s.drop_first().push(e));
        assert(s.push(e)[0] == s[0]);
        lemma_entry_push(s.drop_first(), e, q);
    } else {
        assert(s.push(e).drop_first() =~= s);
        assert(s.push(e)[0] == e);
    }
}

/// Overwriting the first entry named `e.0` changes only that name.
proof fn lemma_entry_update(s: Seq<(Seq<char>, Seq<char>)>, i: int, e: (Seq<char>, Seq<char>), q: Seq<char>)
    requires
        0 <= i < s.len(),
        s[i].0 == e.0,
        forall|j: int| 0 <= j < i ==> s[j].0 != e.0,
    ensures
        entry_value(s.update(i, e), q) == if q == e.0 {
            Some(e.1)
        } else {
            entry_value(s, q)
        },
    decreases s.len(),
{
    if i > 0 {
        assert(s.update(i, e).drop_first() =~= s.drop_first().update(i - 1, e));
        assert forall|j: int| 0 <= j < i - 1 implies s.drop_first()[j].0 != e.0 by {
            assert(s.drop_first()[j] == s[j + 1]);
        }
        lemma_entry_update(s.drop_first(), i - 1, e, q);
    } else {
        assert(s.update(i, e).drop_first() =~= s.drop_first());
        if q != e.0 {
            assert(s[0].0 != q);
        }
    }
}

impl<E> AgentContext<E> {
    /// A context with no events, state, tools or metadata and a new conversation.
    pub fn new(agent_id: u128, profile_id: u128) -> (c: Self)
        ensures
            c.agent_id == agent_id,
            c.profile_id == profile_id,
            c.recent_events@.len() == 0,
            c.state@.len() == 0,
            c.available_tools@.len() == 0,
            c.metadata@.len() == 0,
            c.conversation.messages@.len() == 0,
            c.conversation.max_messages == 50,
            c.conversation.token_count == 0,
    {
        AgentContext {
            agent_id,
            profile_id,
            recent_events: Vec::new(),
            state: Vec::new(),
            available_tools: Vec::new(),
            conversation: ConversationContext::new(),
            metadata: Vec::new(),
        }
    }

    /// Appends an event, dropping the oldest once more than ten are held.
    pub fn add_event(&mut self, event: E)
        ensures
            final(self).recent_events@ == (if old(self).recent_events@.len() + 1 > MAX_RECENT_EVENTS {
                old(self).recent_events@.push(event).drop_first()
            } else {
                old(self).recent_events@.push(event)
            }),
            final(self).state == old(self).state,
            final(self).available_tools == old(self).available_tools,
            final(self).agent_id == old(self).agent_id,
            final(self).profile_id == old(self).profile_id,
    {
        self.recent_events.push(event);
        if self.recent_events.len() > MAX_RECENT_EVENTS {
            let ghost before = self.recent_events@;
            self.recent_events.remove(0);
            assert(self.recent_events@ =~= before.drop_first());
        }
    }

    /// Sets state variable `key` to `value`, replacing an earlier value.
    pub fn update_state(&mut self, key: String, value: String)
        ensures
            entry_value(entries(final(self).state@), key@) == Some(value@),
            forall|q: Seq<char>|
                q != key@ ==> #[trigger] entry_value(entries(final(self).state@), q) == entry_value(
                    entries(old(self).state@),
                    q,
                ),
            final(self).recent_events@ == old(self).recent_events@,
            final(self).available_tools == old(self).available_tools,
            final(self).agent_id == old(self).agent_id,
            final(self).profile_id == old(self).profile_id,
    {
        let ghost old_entries = entries(self.state@);
        let mut i: usize = 0;
        while i < self.state.len()
            invariant
                i <= self.state@.len(),
                self.state@ == old(self).state@,
                self.recent_events@ == old(self).recent_events@,
                self.available_tools == old(self).available_tools,
                self.agent_id == old(self).agent_id,
                self.profile_id == old(self).profile_id,
                old_entries == entries(self.state@),
                forall|j: int| 0 <= j < i ==> (#[trigger] self.state@[j]).0@ != key@,
            decreases self.state@.len() - i,
        {
            if str_eq(self.state[i].0.as_str(), key.as_str()) {
                let ghost e = (key@, value@);
                proof {
                    assert forall|j: int| 0 <= j < i implies old_entries[j].0 != e.0 by {
                        assert(old_entries[j].0 == self.state@[j].0@);
                    }
                    assert forall|q: Seq<char>|
                        #[trigger] entry_value(old_entries.update(i as int, e), q) == if q == e.0 {
                            Some(e.1)
                        } else {
                            entry_value(old_entries, q)
                        } by {
                        lemma_entry_update(old_entries, i as int, e, q);
                    }
                }
                self.state.set(i, (key, value));
                assert(entries(self.state@) =~= old_entries.update(i as int, e));
                return;
            }
            i = i + 1;
        }
        let ghost e = (key@, value@);
        proof {
            assert(entry_value(old_entries, key@) is None) by {
                lemma_entry_absent(old_entries, key@);
            }
            assert forall|q: Seq<char>|
                #[trigger] entry_value(old_entries.push(e), q) == (match entry_value(old_entries, q) {
                    Some(v) => Some(v),
                    None => if e.0 == q {
                        Some(e.1)
                    } else {
                        None
                    },
                }) by {
                lemma_entry_push(old_entries, e, q);
            }
        }
        self.state.push((key, value));
        assert(entries(self.state@) =~= old_entries.push(e));
    }

    /// The value of state variable `key`, if set.
    pub fn get_state(&self, key: &str) -> (r: Option<&String>)
        ensures
            match r {
                Some(v) => entry_value(entries(self.state@), key@) == Some(v@),
                None => entry_value(entries(self.state@), key@) is None,
            },
    {
        let ghost all = entries(self.state@);
        let mut i: usize = 0;
        while i < self.state.len()
            invariant
                i <= self.state@.len(),
                all == entries(self.state@),
                forall|j: int| 0 <= j < i ==> (#[trigger] self.state@[j]).0@ != key@,
            decreases self.state@.len() - i,
        {
            if str_eq(self.state[i].0.as_str(), key) {
                proof {
                    lemma_entry_first(all, i as int, key@);
                }
                return Some(&self.state[i].1);
            }
            i = i + 1;
        }
        proof {
            lemma_entry_absent(all, key@);
        }
        None
    }

    /// Adds a tool to those offered.
    pub fn add_tool(&mut self, tool: ToolDefinition)
        ensures
            final(self).available_tools@ == old(self).available_tools@.push(tool),
            final(self).state == old(self).state,
            final(self).recent_events@ == old(self).recent_events@,
    {
        self.available_tools.push(tool);
    }

    /// The enabled tools, in order.
    pub fn get_enabled_tools(&self) -> (r: Vec<&ToolDefinition>)
        ensures
            r@.map_values(|t: &ToolDefinition| *t) == self.available_tools@.filter(|t: ToolDefinition| t.enabled),
    {
        let mut r: Vec<&ToolDefinition> = Vec::new();
        let mut i: usize = 0;
        while i < self.available_tools.len()
            invariant
                i <= self.available_tools@.len(),
                r@.map_values(|t: &ToolDefinition| *t) == self.available_tools@.subrange(0, i as int).filter(
                    |t: ToolDefinition| t.enabled,
                ),
            decreases self.available_tools@.len() - i,
        {
            let ghost sub = self.available_tools@.subrange(0, i as int);
            let t = &self.available_tools[i];
            assert(self.available_tools@.subrange(0, i + 1) =~= sub.push(*t));
            proof {
                reveal(Seq::filter);
                assert(sub.push(*t).drop_last() =~= sub);
            }
            if t.enabled {
                r.push(t);
            }
            assert(r@.map_values(|t: &ToolDefinition| *t) =~= self.available_tools@.subrange(0, i + 1).filter(
                |t: ToolDefinition| t.enabled,
            ));
            i = i + 1;
        }
        assert(self.available_tools@.subrange(0, self.available_tools@.len() as int) =~= self.available_tools@);
        r
    }
}

/// With no entry named `key`, nothing is found.
proof fn lemma_entry_absent(s: Seq<(Seq<char>, Seq<char>)>, key: Seq<char>)
    requires
        forall|j: int| 0 <= j < s.len() ==> s[j].0 != key,
    ensures
        entry_value(s, key) is None,
    decreases s.len(),
{
    if s.len() > 0 {
        assert forall|j: int| 0 <= j < s.drop_first().len() implies s.drop_first()[j].0 != key by {
            assert(s.drop_first()[j] == s[j + 1]);
        }
        lemma_entry_absent(s.drop_first(), key);
    }
}

/// The first entry named `key` is the one found.
proof fn lemma_entry_first(s: Seq<(Seq<char>, Seq<char>)>, i: int, key: Seq<char>)
    requires
        0 <= i < s.len(),
        s[i].0 == key,
        forall|j: int| 0 <= j < i ==> s[j].0 != key,
    ensures
        entry_value(s, key) == Some(s[i].1),
    decreases i,
{
    if i > 0 {
        assert forall|j: int| 0 <= j < i - 1 implies s.drop_first()[j].0 != key by {
            assert(s.drop_first()[j] == s[j + 1]);
        }
        assert(s.drop_first()[i - 1] == s[i]);
        lemma_entry_first(s.drop_first(), i - 1, key);
    }
}

} // verus!
