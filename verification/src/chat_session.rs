//! A conversation history kept within a token budget: when it grows past the
//! budget, the oldest messages after the system prompt are dropped.
use vstd::prelude::*;
use crate::models::{LlmMessage, MessageRole};
use crate::tokenizer::{bpe_encode, TokenEncoding, TokenizerGateway};
use vstd::string::StringExecFns;

verus! {

/// A message with its token count.
#[derive(Debug, Clone)]
pub struct SizedLlmMessage {
    pub message: LlmMessage,
    pub token_length: usize,
}

impl SizedLlmMessage {
    pub fn new(message: LlmMessage, token_length: usize) -> (m: SizedLlmMessage)
        ensures
            m.message == message,
            m.token_length == token_length,
    {
        SizedLlmMessage { message, token_length }
    }

    /// The role of the message.
    pub fn role(&self) -> (r: MessageRole)
        ensures
            r == self.message.role,
    {
        self.message.role
    }

    /// The text of the message, if it has one.
    pub fn content(&self) -> (r: Option<&str>)
        ensures
            match self.message.content {
                Some(c) => r matches Some(s) && s@ == c@,
                None => r is None,
            },
    {
        match &self.message.content {
            Some(c) => Some(c.as_str()),
            None => None,
        }
    }
}

/// How many tokens a text takes under an encoding (none when the encoder
/// fails on it).
pub open spec fn token_count(encoding: TokenEncoding, text: Seq<char>) -> nat {
    match bpe_encode(encoding, text) {
        Some(t) => t.len(),
        None => 0,
    }
}

/// The encoder accepts a message's text, if it has one.
pub open spec fn sizable(encoding: TokenEncoding, content: Option<String>) -> bool {
    match content {
        Some(c) => bpe_encode(encoding, c@) is Some,
        None => true,
    }
}

/// The tokens a message's text takes under an encoding; no text takes none.
pub open spec fn content_tokens(encoding: TokenEncoding, content: Option<String>) -> nat {
    match content {
        Some(c) => token_count(encoding, c@),
        None => 0,
    }
}

/// The sum of the token counts.
pub open spec fn total_of(msgs: Seq<SizedLlmMessage>) -> nat
    decreases msgs.len(),
{
    if msgs.len() == 0 {
        0
    } else {
        total_of(msgs.drop_last()) + msgs.last().token_length as nat
    }
}

/// The first message followed by the messages from position `k` on.
pub open spec fn keep_from(msgs: Seq<SizedLlmMessage>, k: int) -> Seq<SizedLlmMessage> {
    seq![msgs[0]] + msgs.skip(k)
}

/// `trimmed` is what remains of `msgs` under `max` tokens: the first message,
/// then the shortest tail of the others that fits with it (or none when no
/// tail fits).
pub open spec fn trimmed_to(msgs: Seq<SizedLlmMessage>, max: nat, trimmed: Seq<SizedLlmMessage>) -> bool {
    exists|k: int|
        1 <= k <= msgs.len() && trimmed == keep_from(msgs, k) && (total_of(trimmed) <= max || k
            == msgs.len()) && forall|j: int| 1 <= j < k ==> total_of(#[trigger] keep_from(msgs, j)) > max
}

/// A conversation history with a token budget. The first message is the
/// system prompt, which is always kept.
pub struct ChatSession {
    messages: Vec<SizedLlmMessage>,
    max_context: usize,
    tokenizer_gateway: TokenizerGateway,
}

proof fn lemma_total_push(msgs: Seq<SizedLlmMessage>, m: SizedLlmMessage)
    ensures
        total_of(msgs.push(m)) == total_of(msgs) + m.token_length,
{
    assert(msgs.push(m).drop_last() == msgs);
}

proof fn lemma_total_prepend(m: SizedLlmMessage, msgs: Seq<SizedLlmMessage>)
    ensures
        total_of(seq![m] + msgs) == m.token_length + total_of(msgs),
    decreases msgs.len(),
{
    if msgs.len() == 0 {
        assert(seq![m] + msgs =~= seq![m]);
        assert(seq![m].drop_last() =~= Seq::<SizedLlmMessage>::empty());
        assert(total_of(Seq::<SizedLlmMessage>::empty()) == 0);
        assert(total_of(seq![m]) == total_of(seq![m].drop_last()) + m.token_length);
    } else {
        lemma_total_prepend(m, msgs.drop_last());
        assert((seq![m] + msgs).drop_last() =~= seq![m] + msgs.drop_last());
        assert((seq![m] + msgs).last() == msgs.last());
        assert(total_of(seq![m] + msgs) == total_of((seq![m] + msgs).drop_last()) + msgs.last().token_length);
    }
}

/// Dropping the message at position `k` of the kept tail lowers the total by its count.
proof fn lemma_keep_step(msgs: Seq<SizedLlmMessage>, k: int)
    requires
        1 <= k < msgs.len(),
    ensures
        total_of(keep_from(msgs, k)) == total_of(keep_from(msgs, k + 1)) + msgs[k].token_length,
        keep_from(msgs, k).remove(1) == keep_from(msgs, k + 1),
{
    lemma_total_prepend(msgs[0], msgs.skip(k));
    lemma_total_prepend(msgs[0], msgs.skip(k + 1));
    lemma_total_prepend(msgs[k], msgs.skip(k + 1));
    assert(msgs.skip(k) == seq![msgs[k]] + msgs.skip(k + 1));
    assert(keep_from(msgs, k).remove(1) =~= keep_from(msgs, k + 1));
}

impl ChatSession {
    /// The history, oldest first.
    pub closed spec fn history(&self) -> Seq<SizedLlmMessage> {
        self.messages@
    }

    /// The token budget.
    pub closed spec fn budget(&self) -> nat {
        self.max_context as nat
    }

    /// The encoding token counts are taken with.
    pub closed spec fn encoding(&self) -> TokenEncoding {
        self.tokenizer_gateway.encoding
    }

    /// The history is never empty, every message's text is one the encoder
    /// accepts and its count is the count of that text, and the total fits in
    /// a machine word.
    pub open spec fn wf(&self) -> bool {
        &&& self.history().len() >= 1
        &&& forall|i: int|
            0 <= i < self.history().len() ==> #[trigger] self.history()[i].token_length
                == content_tokens(self.encoding(), self.history()[i].message.content)
                && sizable(self.encoding(), self.history()[i].message.content)
        &&& total_of(self.history()) <= usize::MAX
    }

    /// A session whose history is the system prompt alone, counted as `n` tokens.
    fn start(system_prompt: String, n: usize, max_context: usize, tokenizer_gateway: TokenizerGateway) -> (s:
        ChatSession)
        requires
            bpe_encode(tokenizer_gateway.encoding, system_prompt@) is Some,
            n == token_count(tokenizer_gateway.encoding, system_prompt@),
        ensures
            s.wf(),
            s.budget() == max_context,
            s.encoding() == tokenizer_gateway.encoding,
            s.history().len() == 1,
            s.history()[0].message == LlmMessage::system_spec(system_prompt),
            s.history()[0].token_length == n,
    {
        let m = LlmMessage::system(system_prompt);
        let mut messages = Vec::new();
        messages.push(SizedLlmMessage::new(m, n));
        let s = ChatSession { messages, max_context, tokenizer_gateway };
        proof {
            lemma_total_push(Seq::<SizedLlmMessage>::empty(), s.history()[0]);
            assert(s.history() =~= Seq::<SizedLlmMessage>::empty().push(s.history()[0]));
        }
        s
    }

    /// A session whose history is the system prompt alone; the encoder must
    /// accept the prompt.
    pub fn with_settings(system_prompt: String, max_context: usize, tokenizer_gateway: TokenizerGateway) -> (s:
        ChatSession)
        requires
            bpe_encode(tokenizer_gateway.encoding, system_prompt@) is Some,
        ensures
            s.wf(),
            s.budget() == max_context,
            s.encoding() == tokenizer_gateway.encoding,
            s.history().len() == 1,
            s.history()[0].message == LlmMessage::system_spec(system_prompt),
            s.history()[0].token_length == token_count(tokenizer_gateway.encoding, system_prompt@),
    {
        let n = tokenizer_gateway.count_tokens(system_prompt.as_str());
        Self::start(system_prompt, n, max_context, tokenizer_gateway)
    }

    /// As `with_settings`, or `None` when the encoder fails on the prompt.
    pub fn try_with_settings(system_prompt: String, max_context: usize, tokenizer_gateway: TokenizerGateway) -> (r:
        Option<ChatSession>)
        ensures
            match r {
                Some(s) => {
                    &&& bpe_encode(tokenizer_gateway.encoding, system_prompt@) is Some
                    &&& s.wf()
                    &&& s.budget() == max_context
                    &&& s.encoding() == tokenizer_gateway.encoding
                    &&& s.history().len() == 1
                    &&& s.history()[0].message == LlmMessage::system_spec(system_prompt)
                    &&& s.history()[0].token_length == token_count(tokenizer_gateway.encoding, system_prompt@)
                },
                None => bpe_encode(tokenizer_gateway.encoding, system_prompt@) is None,
            },
    {
        match tokenizer_gateway.try_count_tokens(system_prompt.as_str()) {
            Some(n) => Some(Self::start(system_prompt, n, max_context, tokenizer_gateway)),
            None => None,
        }
    }

    /// Sizes a message with the session's tokenizer, or `None` when the
    /// encoder fails on its text.
    fn try_size_message(&self, message: LlmMessage) -> (r: Option<SizedLlmMessage>)
        ensures
            r is Some <==> sizable(self.encoding(), message.content),
            r matches Some(m) ==> m.message == message && m.token_length == content_tokens(
                self.encoding(),
                message.content,
            ),
    {
        let n = match &message.content {
            Some(c) => match self.tokenizer_gateway.try_count_tokens(c.as_str()) {
                Some(n) => n,
                None => {
                    return None;
                },
            },
            None => 0,
        };
        Some(SizedLlmMessage::new(message, n))
    }

    /// Adds a message to the history, then drops the oldest messages after
    /// the system prompt, one by one, while the total is over the budget.
    /// The encoder must accept the message's text.
    pub fn insert_message(&mut self, message: LlmMessage)
        requires
            old(self).wf(),
            sizable(old(self).encoding(), message.content),
        ensures
            final(self).wf(),
            final(self).budget() == old(self).budget(),
            final(self).encoding() == old(self).encoding(),
            trimmed_to(
                old(self).history().push(
                    SizedLlmMessage {
                        message,
                        token_length: content_tokens(old(self).encoding(), message.content) as usize,
                    },
                ),
                old(self).budget(),
                final(self).history(),
            ),
    {
        let sized = self.try_size_message(message).unwrap();
        self.push_and_trim(sized);
    }

    /// As `insert_message` when the encoder accepts the message's text, and
    /// `true`; otherwise the session is left as it was, and `false`.
    pub fn try_insert_message(&mut self, message: LlmMessage) -> (inserted: bool)
        requires
            old(self).wf(),
        ensures
            inserted == sizable(old(self).encoding(), message.content),
            final(self).wf(),
            final(self).budget() == old(self).budget(),
            final(self).encoding() == old(self).encoding(),
            inserted ==> trimmed_to(
                old(self).history().push(
                    SizedLlmMessage {
                        message,
                        token_length: content_tokens(old(self).encoding(), message.content) as usize,
                    },
                ),
                old(self).budget(),
                final(self).history(),
            ),
            !inserted ==> final(self).history() == old(self).history(),
    {
        match self.try_size_message(message) {
            Some(sized) => {
                self.push_and_trim(sized);
                true
            },
            None => false,
        }
    }

    /// Appends a sized message, then drops the oldest messages after the
    /// system prompt while the total is over the budget.
    fn push_and_trim(&mut self, sized: SizedLlmMessage)
        requires
            old(self).wf(),
            sized.token_length == content_tokens(old(self).encoding(), sized.message.content),
            sizable(old(self).encoding(), sized.message.content),
        ensures
            final(self).wf(),
            final(self).budget() == old(self).budget(),
            final(self).encoding() == old(self).encoding(),
            trimmed_to(old(self).history().push(sized), old(self).budget(), final(self).history()),
    {
        let ghost all = self.messages@.push(sized);
        let old_total = self.total_tokens();
        let added = sized.token_length;
        self.messages.push(sized);
        proof {
            lemma_total_push(old(self).history(), sized);
            assert(keep_from(all, 1) =~= all);
        }
        let mut total: u128 = old_total as u128 + added as u128;
        let ghost mut k: int = 1;
        while total > self.max_context as u128 && self.messages.len() > 1
            invariant
                1 <= k <= all.len(),
                self.messages@ == keep_from(all, k),
                total == total_of(keep_from(all, k)),
                total <= 2 * (usize::MAX as int),
                forall|j: int| 1 <= j < k ==> total_of(#[trigger] keep_from(all, j)) > self.max_context,
                self.max_context == old(self).max_context,
                self.tokenizer_gateway == old(self).tokenizer_gateway,
                all.len() >= 2,
            decreases self.messages@.len(),
        {
            let removed = self.messages.remove(1);
            proof {
                assert(k < all.len());
                lemma_keep_step(all, k);
                assert(removed == all[k]);
                k = k + 1;
            }
            total = total - removed.token_length as u128;
        }
        proof {
            assert(self.messages@.len() == 1 ==> k == all.len());
            assert forall|i: int| 0 <= i < self.messages@.len() implies #[trigger] self.messages@[i].token_length
                == content_tokens(self.encoding(), self.messages@[i].message.content) && sizable(
                self.encoding(),
                self.messages@[i].message.content,
            ) by {
                if i == 0 {
                    assert(self.messages@[0] == all[0]);
                } else {
                    assert(self.messages@[i] == all[k + i - 1]);
                }
            }
            if self.messages@.len() == 1 {
                assert(self.messages@ =~= seq![all[0]]);
                lemma_total_push(Seq::<SizedLlmMessage>::empty(), all[0]);
                assert(seq![all[0]] =~= Seq::<SizedLlmMessage>::empty().push(all[0]));
            }
        }
    }

    /// The history, oldest first.
    pub fn messages(&self) -> (v: &[SizedLlmMessage])
        ensures
            v@ == self.history(),
    {
        self.messages.as_slice()
    }

    /// The total token count of the history.
    pub fn total_tokens(&self) -> (n: usize)
        requires
            self.wf(),
        ensures
            n == total_of(self.history()),
    {
        let mut n: usize = 0;
        let mut i: usize = 0;
        while i < self.messages.len()
            invariant
                i <= self.messages@.len(),
                n == total_of(self.messages@.take(i as int)),
                total_of(self.messages@) <= usize::MAX,
            decreases self.messages@.len() - i,
        {
            proof {
                lemma_total_push(self.messages@.take(i as int), self.messages@[i as int]);
                assert(self.messages@.take(i + 1) =~= self.messages@.take(i as int).push(
                    self.messages@[i as int],
                ));
                lemma_total_prefix(self.messages@, i + 1);
            }
            n = n + self.messages[i].token_length;
            i = i + 1;
        }
        assert(self.messages@.take(i as int) =~= self.messages@);
        n
    }

    /// Recounts every message that has text but a zero count. Since every
    /// count already is the count of its message's text, nothing changes.
    pub fn ensure_all_messages_are_sized(&mut self)
        requires
            old(self).wf(),
        ensures
            final(self).history() == old(self).history(),
            final(self).budget() == old(self).budget(),
            final(self).encoding() == old(self).encoding(),
    {
        let mut i: usize = 0;
        while i < self.messages.len()
            invariant
                i <= self.messages@.len(),
                self.messages@ == old(self).messages@,
                self.max_context == old(self).max_context,
                self.tokenizer_gateway == old(self).tokenizer_gateway,
                forall|j: int|
                    0 <= j < self.messages@.len() ==> #[trigger] self.messages@[j].token_length
                        == content_tokens(self.tokenizer_gateway.encoding, self.messages@[j].message.content)
                        && sizable(self.tokenizer_gateway.encoding, self.messages@[j].message.content),
            decreases self.messages@.len() - i,
        {
            if self.messages[i].token_length == 0 {
                match &self.messages[i].message.content {
                    Some(c) => {
                        let n = self.tokenizer_gateway.encode(c.as_str()).len();
                        let mut m = self.messages.remove(i);
                        m.token_length = n;
                        self.messages.insert(i, m);
                        assert(self.messages@ =~= old(self).messages@);
                    },
                    None => {},
                }
            }
            i = i + 1;
        }
    }
}

/// The total of a prefix is at most the total.
proof fn lemma_total_prefix(msgs: Seq<SizedLlmMessage>, i: int)
    requires
        0 <= i <= msgs.len(),
    ensures
        total_of(msgs.take(i)) <= total_of(msgs),
    decreases msgs.len() - i,
{
    if i < msgs.len() {
        lemma_total_prefix(msgs, i + 1);
        assert(msgs.take(i + 1).drop_last() =~= msgs.take(i));
    } else {
        assert(msgs.take(i) =~= msgs);
    }
}

/// Settings for a new session: the system prompt, the token budget and the
/// tokenizer.
pub struct ChatSessionBuilder {
    system_prompt: String,
    max_context: usize,
    tokenizer_gateway: Option<TokenizerGateway>,
}

impl ChatSessionBuilder {
    /// The prompt, budget and tokenizer chosen so far.
    pub closed spec fn settings(&self) -> (Seq<char>, nat, Option<TokenizerGateway>) {
        (self.system_prompt@, self.max_context as nat, self.tokenizer_gateway)
    }

    /// The defaults: prompt `You are a helpful assistant.`, a budget of 32768
    /// tokens and the `cl100k_base` tokenizer.
    pub fn new() -> (b: ChatSessionBuilder)
        ensures
            b.settings() == ("You are a helpful assistant."@, 32768nat, None::<TokenizerGateway>),
    {
        ChatSessionBuilder {
            system_prompt: String::from_str("You are a helpful assistant."),
            max_context: 32768,
            tokenizer_gateway: None,
        }
    }

    /// Sets the system prompt.
    pub fn system_prompt(self, prompt: String) -> (b: ChatSessionBuilder)
        ensures
            b.settings() == (prompt@, self.settings().1, self.settings().2),
    {
        ChatSessionBuilder { system_prompt: prompt, ..self }
    }

    /// Sets the token budget.
    pub fn max_context(self, max_context: usize) -> (b: ChatSessionBuilder)
        ensures
            b.settings() == (self.settings().0, max_context as nat, self.settings().2),
    {
        ChatSessionBuilder { max_context, ..self }
    }

    /// Sets the tokenizer.
    pub fn tokenizer_gateway(self, gateway: TokenizerGateway) -> (b: ChatSessionBuilder)
        ensures
            b.settings() == (self.settings().0, self.settings().1, Some(gateway)),
    {
        ChatSessionBuilder { tokenizer_gateway: Some(gateway), ..self }
    }

    /// A session whose history is the system prompt alone, sized with the
    /// chosen tokenizer (`cl100k_base` when none was chosen); the encoder must
    /// accept the prompt.
    pub fn build(self) -> (s: ChatSession)
        requires
            bpe_encode(chosen_encoding(self.settings().2), self.settings().0) is Some,
        ensures
            s.wf(),
            s.budget() == self.settings().1,
            s.encoding() == chosen_encoding(self.settings().2),
            s.history().len() == 1,
            s.history()[0].message.role == MessageRole::System,
            s.history()[0].message.content matches Some(c) && c@ == self.settings().0,
            s.history()[0].token_length == token_count(s.encoding(), self.settings().0),
    {
        let gateway = match self.tokenizer_gateway {
            Some(g) => g,
            None => TokenizerGateway::default(),
        };
        ChatSession::with_settings(self.system_prompt, self.max_context, gateway)
    }

    /// As `build`, or `None` when the encoder fails on the prompt.
    pub fn try_build(self) -> (r: Option<ChatSession>)
        ensures
            match r {
                Some(s) => {
                    &&& bpe_encode(chosen_encoding(self.settings().2), self.settings().0) is Some
                    &&& s.wf()
                    &&& s.budget() == self.settings().1
                    &&& s.encoding() == chosen_encoding(self.settings().2)
                    &&& s.history().len() == 1
                    &&& s.history()[0].message.role == MessageRole::System
                    &&& s.history()[0].message.content matches Some(c) && c@ == self.settings().0
                    &&& s.history()[0].token_length == token_count(s.encoding(), self.settings().0)
                },
                None => bpe_encode(chosen_encoding(self.settings().2), self.settings().0) is None,
            },
    {
        let gateway = match self.tokenizer_gateway {
            Some(g) => g,
            None => TokenizerGateway::default(),
        };
        ChatSession::try_with_settings(self.system_prompt, self.max_context, gateway)
    }
}

/// The encoding a session is built with: the chosen tokenizer's, else `cl100k_base`.
pub open spec fn chosen_encoding(gateway: Option<TokenizerGateway>) -> TokenEncoding {
    match gateway {
        Some(g) => g.encoding,
        None => TokenEncoding::Cl100kBase,
    }
}

/// After any insertion the system prompt is still first.
pub proof fn lemma_trim_keeps_system_prompt(
    msgs: Seq<SizedLlmMessage>,
    max: nat,
    trimmed: Seq<SizedLlmMessage>,
)
    requires
        trimmed_to(msgs, max, trimmed),
    ensures
        trimmed.len() >= 1,
        trimmed[0] == msgs[0],
{
}

/// After any insertion the history fits the budget, unless only the system
/// prompt is left.
pub proof fn lemma_trim_within_budget(msgs: Seq<SizedLlmMessage>, max: nat, trimmed: Seq<SizedLlmMessage>)
    requires
        trimmed_to(msgs, max, trimmed),
    ensures
        total_of(trimmed) <= max || trimmed.len() == 1,
{
    let k = choose|k: int|
        1 <= k <= msgs.len() && trimmed == keep_from(msgs, k) && (total_of(trimmed) <= max || k
            == msgs.len()) && forall|j: int| 1 <= j < k ==> total_of(#[trigger] keep_from(msgs, j)) > max;
    if k == msgs.len() {
        assert(msgs.skip(k) =~= Seq::<SizedLlmMessage>::empty());
        assert(trimmed =~= seq![msgs[0]]);
    }
}

/// Messages leave the history oldest first: what remains after the system
/// prompt is a tail of the conversation, so the newest message stays
/// whenever it fits in the budget together with the system prompt.
pub proof fn lemma_trim_keeps_newest(msgs: Seq<SizedLlmMessage>, max: nat, trimmed: Seq<SizedLlmMessage>)
    requires
        trimmed_to(msgs, max, trimmed),
        msgs.len() >= 2,
        msgs[0].token_length + msgs.last().token_length <= max,
    ensures
        trimmed.len() >= 2,
        trimmed.last() == msgs.last(),
{
    let k = choose|k: int|
        1 <= k <= msgs.len() && trimmed == keep_from(msgs, k) && (total_of(trimmed) <= max || k
            == msgs.len()) && forall|j: int| 1 <= j < k ==> total_of(#[trigger] keep_from(msgs, j)) > max;
    if k == msgs.len() {
        let j = msgs.len() - 1;
        assert(msgs.skip(j) =~= seq![msgs.last()]);
        lemma_total_prepend(msgs[0], seq![msgs.last()]);
        lemma_total_push(Seq::<SizedLlmMessage>::empty(), msgs.last());
        assert(seq![msgs.last()] =~= Seq::<SizedLlmMessage>::empty().push(msgs.last()));
        assert(total_of(keep_from(msgs, j)) > max);
        assert(false);
    }
    assert(trimmed.last() == msgs.last());
}

} // verus!
