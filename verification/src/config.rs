//! Agentcord's configuration contract.
//!
//! Configuration is loaded from TOML after expanding `${NAME}` references in
//! string values. Expansion is performed on the parsed value tree, so an
//! environment value is data and cannot change the TOML structure.

use vstd::prelude::*;

use crate::error::{BotError, BotResult};
use crate::ids::{ChannelId, EmojiId, GuildId, UserId};
use crate::numbers;
use crate::seqs;
use crate::text;

verus! {

/// Maximum tags Discord permits on a forum channel.
pub const DISCORD_FORUM_TAG_LIMIT: usize = 20;

/// Maximum options Discord permits in a select component.
pub const DISCORD_SELECT_LIMIT: usize = 25;

/// Maximum characters of an agent key, which names a forum tag.
pub const AGENT_KEY_LIMIT: usize = 20;

/// Maximum characters of an agent's display name.
pub const DISPLAY_NAME_LIMIT: usize = 100;

/// Stable configuration key identifying one ACP agent.
#[derive(Clone, Debug, PartialEq, Eq, PartialOrd, Ord, Hash)]
pub struct AgentKey(
    /// Stable text key used to select the configured agent.
    pub String,
);

impl View for AgentKey {
    type V = Seq<char>;

    open spec fn view(&self) -> Seq<char> {
        self.0@
    }
}

impl AgentKey {
    /// Makes a key of a text.
    pub fn new(key: &str) -> (result: AgentKey)
        ensures
            result@ == key@,
    {
        AgentKey(text::copy(key))
    }

    /// Returns the text of the key.
    pub fn as_str(&self) -> (key: &str)
        ensures
            key@ == self@,
    {
        self.0.as_str()
    }

    /// Copies the key.
    pub fn copy(&self) -> (copied: AgentKey)
        ensures
            copied@ == self@,
    {
        AgentKey(text::copy(self.0.as_str()))
    }
}

/// A length of time.
#[derive(Clone, Copy, Debug, PartialEq, Eq, Structural)]
pub struct TimeSpan {
    /// Whole seconds.
    pub secs: u64,
    /// Nanoseconds beyond the whole seconds.
    pub nanos: u32,
}

impl TimeSpan {
    /// A number of whole seconds.
    pub fn from_secs(secs: u64) -> (span: TimeSpan)
        ensures
            span == (TimeSpan { secs, nanos: 0 }),
    {
        TimeSpan { secs, nanos: 0 }
    }

    /// Reports whether the span is empty.
    pub fn is_zero(self) -> (result: bool)
        ensures
            result == (self.secs == 0 && self.nanos == 0),
    {
        self.secs == 0 && self.nanos == 0
    }
}

/// Filesystem settings used to resolve and label projects.
#[derive(Clone, Debug)]
pub struct ProjectsConfig {
    /// Base path used to shorten project display labels.
    pub base_path: String,
}

/// Global policy for ACP permission requests.
#[derive(Clone, Copy, Debug, PartialEq, Eq, Structural)]
pub struct PermissionsConfig {
    /// Whether every permission request should be approved automatically.
    pub approve_all: bool,
}

impl Default for PermissionsConfig {
    /// Asks for every permission.
    fn default() -> (permissions: PermissionsConfig)
        ensures
            !permissions.approve_all,
    {
        PermissionsConfig { approve_all: false }
    }
}

/// Time limits for user interaction, ACP calls, and Discord edits.
#[derive(Clone, Copy, Debug, PartialEq, Eq, Structural)]
pub struct Timeouts {
    /// Time allowed for modal submission.
    pub modal: TimeSpan,
    /// Time allowed for agent startup and bounded renderer drain.
    pub startup: TimeSpan,
    /// Time allowed for an ACP prompt turn.
    pub prompt: TimeSpan,
    /// Time allowed for a permission response.
    pub permission: TimeSpan,
    /// Window used to batch adjacent ACP updates into fewer Discord edits.
    pub edit_debounce: TimeSpan,
}

impl Default for Timeouts {
    /// Supplies conservative defaults for Discord and ACP operations.
    fn default() -> (timeouts: Timeouts)
        ensures
            timeouts == (Timeouts {
                modal: TimeSpan { secs: 300, nanos: 0 },
                startup: TimeSpan { secs: 60, nanos: 0 },
                prompt: TimeSpan { secs: 3600, nanos: 0 },
                permission: TimeSpan { secs: 300, nanos: 0 },
                edit_debounce: TimeSpan { secs: 0, nanos: 100_000_000 },
            }),
    {
        Timeouts {
            modal: TimeSpan { secs: 300, nanos: 0 },
            startup: TimeSpan { secs: 60, nanos: 0 },
            prompt: TimeSpan { secs: 3600, nanos: 0 },
            permission: TimeSpan { secs: 300, nanos: 0 },
            edit_debounce: TimeSpan { secs: 0, nanos: 100_000_000 },
        }
    }
}

/// What `humantime::parse_duration` reads from a text, in seconds and
/// nanoseconds, `None` where it fails.
pub uninterp spec fn human_duration(value: Seq<char>) -> Option<(nat, nat)>;

/// A duration that could not be read, carried but never inspected.
#[verifier::external_type_specification]
#[verifier::external_body]
pub struct ExDurationError(humantime::DurationError);

/// Characters that a unit of time is written with.
pub open spec fn names_unit(c: char) -> bool {
    ('a' <= c && c <= 'z') || ('A' <= c && c <= 'Z') || c == 'µ'
}

/// The end of the span of time that starts before `from`: the first digit behind
/// a unit. `unit` says whether the span has got its unit already.
pub open spec fn span_end(s: Seq<char>, from: int, unit: bool) -> int
    decreases s.len() - from,
{
    if from >= s.len() {
        s.len() as int
    } else if unit && numbers::is_digit(s[from]) {
        from
    } else {
        span_end(s, from + 1, unit || names_unit(s[from]))
    }
}

/// The spans of time in a text from a position on.
pub open spec fn spans_from(s: Seq<char>, from: int) -> Seq<Seq<char>>
    decreases s.len() - from,
{
    if from < 0 || from >= s.len() {
        Seq::empty()
    } else {
        proof {
            lemma_span_end(s, from + 1, names_unit(s[from]));
        }
        let end = span_end(s, from, false);
        seq![s.subrange(from, end)] + spans_from(s, end)
    }
}

/// The spans of time in a text: each a number with its unit.
pub open spec fn spans_of(s: Seq<char>) -> Seq<Seq<char>> {
    spans_from(s, 0)
}

/// Texts that hold one span of time at most.
pub open spec fn is_one_span(s: Seq<char>) -> bool {
    span_end(s, 0, false) == s.len()
}

/// The nanoseconds of spans that are read one by one.
pub open spec fn total_nanos(spans: Seq<Seq<char>>) -> nat
    decreases spans.len(),
{
    if spans.len() == 0 {
        0
    } else {
        total_nanos(spans.drop_last()) + match human_duration(spans.last()) {
            Some((secs, nanos)) => secs * 1_000_000_000 + nanos,
            None => 0,
        }
    }
}

/// Spans that can be read one by one.
pub open spec fn all_read(spans: Seq<Seq<char>>) -> bool {
    forall|i: int| 0 <= i < spans.len() ==> human_duration(#[trigger] spans[i]) is Some
}

/// The nanoseconds that no duration reaches: the seconds of a duration are
/// counted with 64 bits.
pub const DURATION_END: u128 = 18446744073709551616000000000;

/// Texts that hold one span, or spans that together stay below what a duration
/// can count.
pub open spec fn adds_up(s: Seq<char>) -> bool {
    is_one_span(s) || (all_read(spans_of(s)) && total_nanos(spans_of(s)) < DURATION_END)
}

/// A span ends at or after the position it is followed from.
pub proof fn lemma_span_end(s: Seq<char>, from: int, unit: bool)
    requires
        0 <= from <= s.len(),
    ensures
        from <= span_end(s, from, unit) <= s.len(),
    decreases s.len() - from,
{
    if from < s.len() && !(unit && numbers::is_digit(s[from])) {
        lemma_span_end(s, from + 1, unit || names_unit(s[from]));
    }
}

proof fn lemma_span_stands_alone(s: Seq<char>, start: int, from: int, unit: bool)
    requires
        0 <= start <= from <= s.len(),
    ensures
        ({
            let end = span_end(s, from, unit);
            span_end(s.subrange(start, end), from - start, unit) == end - start
        }),
    decreases s.len() - from,
{
    lemma_span_end(s, from, unit);
    let end = span_end(s, from, unit);
    if from < end {
        assert(s.subrange(start, end)[from - start] == s[from]);
        lemma_span_stands_alone(s, start, from + 1, unit || names_unit(s[from]));
    }
}

fn find_span_end(chars: &Vec<char>, from: usize) -> (end: usize)
    requires
        from < chars@.len(),
    ensures
        end == span_end(chars@, from as int, false),
        from < end <= chars@.len(),
{
    let mut unit = false;
    let mut end: usize = from;
    while end < chars.len()
        invariant
            from <= end <= chars@.len(),
            end == from ==> !unit,
            span_end(chars@, from as int, false) == span_end(chars@, end as int, unit),
        decreases chars@.len() - end,
    {
        let c: char = chars[end];
        if unit && '0' <= c && c <= '9' {
            return end;
        }
        if ('a' <= c && c <= 'z') || ('A' <= c && c <= 'Z') || c == 'µ' {
            unit = true;
        }
        end += 1;
    }
    end
}

/// `humantime::parse_duration`: a duration written with units. What a text is
/// read as depends on the text alone; of the error nothing is said. Spans that
/// add up to exactly one second more than a `Duration` counts make it panic, so
/// the text must add up.
#[verifier::external_body]
fn parse_human(value: &str) -> (result: Result<TimeSpan, humantime::DurationError>)
    requires
        adds_up(value@),
    ensures
        match result {
            Ok(span) => span.nanos < 1_000_000_000 && human_duration(value@) == Some(
                (span.secs as nat, span.nanos as nat),
            ),
            Err(_) => human_duration(value@) is None,
        },
{
    humantime::parse_duration(value).map(|span| TimeSpan {
        secs: span.as_secs(),
        nanos: span.subsec_nanos(),
    })
}

/// Reads the spans of a duration one by one.
fn read_spans(value: &str) -> (result: Result<Vec<TimeSpan>, humantime::DurationError>)
    ensures
        match result {
            Ok(read) => all_read(spans_of(value@)) && read@.len() == spans_of(value@).len() && (
            forall|i: int|
                0 <= i < read@.len() ==> human_duration(spans_of(value@)[i]) == Some(
                    ((#[trigger] read@[i]).secs as nat, read@[i].nanos as nat),
                )),
            Err(_) => !all_read(spans_of(value@)),
        },
{
    let chars = text::chars_of(value);
    let ghost all = spans_of(value@);
    let ghost mut done: Seq<Seq<char>> = Seq::empty();
    let mut read: Vec<TimeSpan> = Vec::new();
    let mut from: usize = 0;
    assert(done + spans_from(value@, 0) =~= all);
    while from < chars.len()
        invariant
            from <= chars@.len(),
            chars@ == value@,
            all == spans_of(value@),
            done + spans_from(value@, from as int) == all,
            done.len() == read@.len(),
            forall|i: int|
                0 <= i < read@.len() ==> human_duration(done[i]) == Some(
                    ((#[trigger] read@[i]).secs as nat, read@[i].nanos as nat),
                ),
        decreases chars@.len() - from,
    {
        let end = find_span_end(&chars, from);
        let span = text::string_of(&chars, from, end);
        proof {
            lemma_span_stands_alone(value@, from as int, from as int, false);
            let next = spans_from(value@, end as int);
            assert(spans_from(value@, from as int) == seq![span@] + next);
            assert(done + (seq![span@] + next) =~= done.push(span@) + next);
            assert(all[done.len() as int] == span@);
        }
        match parse_human(span.as_str()) {
            Ok(parsed) => read.push(parsed),
            Err(error) => {
                return Err(error);
            },
        }
        proof {
            done = done.push(span@);
        }
        from = end;
    }
    assert(done =~= all);
    assert forall|i: int| 0 <= i < all.len() implies human_duration(#[trigger] all[i]) is Some by {
        assert(human_duration(done[i]) == Some((read@[i].secs as nat, read@[i].nanos as nat)));
    }
    Ok(read)
}

proof fn lemma_total_grows(spans: Seq<Seq<char>>, count: int)
    requires
        0 <= count <= spans.len(),
    ensures
        total_nanos(spans.take(count)) <= total_nanos(spans),
    decreases spans.len() - count,
{
    if count < spans.len() {
        lemma_total_grows(spans, count + 1);
        assert(spans.take(count + 1).drop_last() =~= spans.take(count));
    } else {
        assert(spans.take(count) =~= spans);
    }
}

/// Checks that spans of time together stay below what a duration can count.
fn spans_fit(read: &Vec<TimeSpan>, Ghost(spans): Ghost<Seq<Seq<char>>>) -> (result: bool)
    requires
        read@.len() == spans.len(),
        forall|i: int|
            0 <= i < read@.len() ==> human_duration(spans[i]) == Some(
                ((#[trigger] read@[i]).secs as nat, read@[i].nanos as nat),
            ),
    ensures
        result == (total_nanos(spans) < DURATION_END),
{
    let mut total: u128 = 0;
    let mut i: usize = 0;
    assert(spans.take(0) =~= Seq::<Seq<char>>::empty());
    while i < read.len()
        invariant
            i <= read@.len(),
            read@.len() == spans.len(),
            forall|j: int|
                0 <= j < read@.len() ==> human_duration(spans[j]) == Some(
                    ((#[trigger] read@[j]).secs as nat, read@[j].nanos as nat),
                ),
            total == total_nanos(spans.take(i as int)),
            total < DURATION_END,
        decreases read@.len() - i,
    {
        let span = read[i];
        proof {
            assert(spans.take(i + 1).drop_last() =~= spans.take(i as int));
            assert(spans.take(i + 1).last() == spans[i as int]);
            lemma_total_grows(spans, i + 1);
        }
        total = total + span.secs as u128 * 1_000_000_000 + span.nanos as u128;
        if total >= DURATION_END {
            return false;
        }
        i += 1;
    }
    assert(spans.take(i as int) =~= spans);
    true
}

/// A configured duration: whole seconds or a text with units.
#[derive(Clone, Debug)]
pub enum DurationSetting {
    /// Whole seconds.
    Seconds(u64),
    /// A value with units.
    Human(String),
}

/// Why a configured duration cannot be used.
#[derive(Debug)]
pub enum DurationProblem {
    /// It is not written as a duration.
    Unreadable(humantime::DurationError),
    /// It is longer than a duration can be.
    TooLong,
}

/// A duration with units is read as a whole where its spans can be read one by
/// one and together stay below what a duration can count.
pub open spec fn is_read(value: Seq<char>, result: Result<TimeSpan, DurationProblem>) -> bool {
    if !all_read(spans_of(value)) {
        result matches Err(DurationProblem::Unreadable(_))
    } else if total_nanos(spans_of(value)) >= DURATION_END {
        result matches Err(DurationProblem::TooLong)
    } else {
        match human_duration(value) {
            Some(expected) => result matches Ok(span) && expected == (
                span.secs as nat,
                span.nanos as nat,
            ),
            None => result matches Err(DurationProblem::Unreadable(_)),
        }
    }
}

fn read_human(value: &str) -> (result: Result<TimeSpan, DurationProblem>)
    ensures
        is_read(value@, result),
        result matches Ok(span) ==> span.nanos < 1_000_000_000,
{
    let read = match read_spans(value) {
        Ok(read) => read,
        Err(error) => {
            return Err(DurationProblem::Unreadable(error));
        },
    };
    if !spans_fit(&read, Ghost(spans_of(value@))) {
        return Err(DurationProblem::TooLong);
    }
    match parse_human(value) {
        Ok(span) => Ok(span),
        Err(error) => Err(DurationProblem::Unreadable(error)),
    }
}

/// Reads either seconds or a human-readable duration.
pub fn read_duration(setting: &DurationSetting) -> (result: Result<TimeSpan, DurationProblem>)
    ensures
        match *setting {
            DurationSetting::Seconds(secs) => result matches Ok(span) && span == (TimeSpan {
                secs,
                nanos: 0,
            }),
            DurationSetting::Human(value) => is_read(value@, result),
        },
        result matches Ok(span) ==> span.nanos < 1_000_000_000,
{
    match setting {
        DurationSetting::Seconds(secs) => Ok(TimeSpan::from_secs(*secs)),
        DurationSetting::Human(value) => read_human(value.as_str()),
    }
}

/// Unicode or custom Discord emoji used by an agent tag.
#[derive(Clone, Debug, Eq, PartialEq)]
pub enum TagEmoji {
    /// A Unicode emoji string.
    Unicode(String),
    /// A guild-specific custom emoji.
    Custom {
        /// Discord emoji snowflake.
        id: EmojiId,
        /// Whether Discord should render the custom emoji as animated.
        animated: bool,
    },
}

/// The content of a tag emoji.
pub ghost enum EmojiView {
    Unicode(Seq<char>),
    Custom(EmojiId, bool),
}

impl View for TagEmoji {
    type V = EmojiView;

    open spec fn view(&self) -> EmojiView {
        match self {
            TagEmoji::Unicode(value) => EmojiView::Unicode(value@),
            TagEmoji::Custom { id, animated } => EmojiView::Custom(*id, *animated),
        }
    }
}

impl TagEmoji {
    /// Copies the emoji.
    pub fn copy(&self) -> (copied: TagEmoji)
        ensures
            copied@ == self@,
    {
        match self {
            TagEmoji::Unicode(value) => TagEmoji::Unicode(text::copy(value.as_str())),
            TagEmoji::Custom { id, animated } => TagEmoji::Custom { id: *id, animated: *animated },
        }
    }
}

/// Discord account, guild, user, and forum identifiers.
#[derive(Clone)]
pub struct DiscordConfig {
    /// Bot token used to authenticate with Discord.
    pub bot_token: String,
    /// Guild containing the configured forum.
    pub guild_id: GuildId,
    /// Sole user allowed to control Agentcord.
    pub allowed_user_id: UserId,
    /// Forum where ACP sessions are projected as posts.
    pub forum_channel_id: ChannelId,
}

/// Command and presentation settings for one ACP agent.
#[derive(Clone)]
pub struct AgentConfig {
    /// Human-readable name shown in Discord.
    pub display_name: String,
    /// Executable spawned directly for ACP communication.
    pub command: String,
    /// Arguments passed directly to the executable.
    pub args: Vec<String>,
    /// Environment overrides passed to the subprocess.
    pub env: Vec<(String, String)>,
    /// Emoji used for the agent's forum tag.
    pub emoji: TagEmoji,
}

/// The content of an agent's settings.
pub ghost struct AgentView {
    pub display_name: Seq<char>,
    pub command: Seq<char>,
    pub args: Seq<Seq<char>>,
    pub env: Seq<(Seq<char>, Seq<char>)>,
    pub emoji: EmojiView,
}

impl View for AgentConfig {
    type V = AgentView;

    open spec fn view(&self) -> AgentView {
        AgentView {
            display_name: self.display_name@,
            command: self.command@,
            args: text::texts(self.args@),
            env: self.env@.map_values(|entry: (String, String)| (entry.0@, entry.1@)),
            emoji: self.emoji@,
        }
    }
}

/// The configured agents, in the order of their keys and without a key twice.
#[derive(Clone)]
pub struct Agents {
    entries: Vec<(AgentKey, AgentConfig)>,
}

/// The position of the first entry with a key, or the number of entries.
pub open spec fn agent_at(entries: Seq<(Seq<char>, AgentView)>, key: Seq<char>) -> int {
    seqs::first_where(entries, keyed(key))
}

/// Entries with a key.
pub open spec fn keyed(key: Seq<char>) -> spec_fn((Seq<char>, AgentView)) -> bool {
    |entry: (Seq<char>, AgentView)| entry.0 == key
}

/// Entries whose keys increase.
pub open spec fn ordered(entries: Seq<(Seq<char>, AgentView)>) -> bool {
    forall|i: int, j: int|
        0 <= i < j < entries.len() ==> text::precedes(
            (#[trigger] entries[i]).0,
            (#[trigger] entries[j]).0,
        )
}

/// Entries with one set: in the place of its key, or where the key belongs.
pub open spec fn with_agent(
    entries: Seq<(Seq<char>, AgentView)>,
    key: Seq<char>,
    agent: AgentView,
) -> Seq<(Seq<char>, AgentView)>
    decreases entries.len(),
{
    if entries.len() == 0 {
        seq![(key, agent)]
    } else if entries[0].0 == key {
        seq![(key, agent)] + entries.drop_first()
    } else if text::precedes(key, entries[0].0) {
        seq![(key, agent)] + entries
    } else {
        seq![entries[0]] + with_agent(entries.drop_first(), key, agent)
    }
}

impl View for Agents {
    type V = Seq<(Seq<char>, AgentView)>;

    closed spec fn view(&self) -> Seq<(Seq<char>, AgentView)> {
        self.entries@.map_values(|entry: (AgentKey, AgentConfig)| (entry.0@, entry.1@))
    }
}

impl Agents {
    /// The keys increase.
    pub open spec fn wf(self) -> bool {
        ordered(self@)
    }

    /// No agents.
    pub fn new() -> (agents: Agents)
        ensures
            agents.wf(),
            agents@ == Seq::<(Seq<char>, AgentView)>::empty(),
    {
        let agents = Agents { entries: Vec::new() };
        assert(agents@ =~= Seq::<(Seq<char>, AgentView)>::empty());
        agents
    }

    /// Returns the number of agents.
    pub fn len(&self) -> (count: usize)
        ensures
            count == self@.len(),
    {
        self.entries.len()
    }

    /// Removes every agent.
    pub fn clear(&mut self)
        ensures
            final(self).wf(),
            final(self)@ == Seq::<(Seq<char>, AgentView)>::empty(),
    {
        self.entries = Vec::new();
        assert(self@ =~= Seq::<(Seq<char>, AgentView)>::empty());
    }

    /// Returns the key at a position.
    pub fn key_at(&self, index: usize) -> (key: Option<&AgentKey>)
        ensures
            match key {
                Some(inner) => index < self@.len() && inner@ == self@[index as int].0,
                None => index >= self@.len(),
            },
    {
        if index < self.entries.len() {
            Some(&self.entries[index].0)
        } else {
            None
        }
    }

    /// Returns the settings at a position.
    pub fn agent_at(&self, index: usize) -> (agent: Option<&AgentConfig>)
        ensures
            match agent {
                Some(inner) => index < self@.len() && inner@ == self@[index as int].1,
                None => index >= self@.len(),
            },
    {
        if index < self.entries.len() {
            Some(&self.entries[index].1)
        } else {
            None
        }
    }

    /// Finds the position of a key.
    pub fn position(&self, key: &str) -> (at: usize)
        ensures
            at == agent_at(self@, key@),
            at <= self@.len(),
    {
        let mut at: usize = 0;
        while at < self.entries.len() && !text::same(self.entries[at].0.as_str(), key)
            invariant
                at <= self@.len(),
                self@.len() == self.entries@.len(),
                forall|i: int| 0 <= i < at ==> !keyed(key@)(#[trigger] self@[i]),
            decreases self@.len() - at,
        {
            at += 1;
        }
        proof {
            seqs::lemma_first_where_is(self@, keyed(key@), at as int);
        }
        at
    }

    /// Returns the settings of an agent.
    pub fn get(&self, key: &str) -> (agent: Option<&AgentConfig>)
        ensures
            match agent {
                Some(inner) => agent_at(self@, key@) < self@.len() && inner@ == self@[agent_at(
                    self@,
                    key@,
                )].1,
                None => agent_at(self@, key@) == self@.len(),
            },
    {
        let at = self.position(key);
        if at < self.entries.len() {
            Some(&self.entries[at].1)
        } else {
            None
        }
    }

    /// Sets the settings of an agent.
    pub fn insert(&mut self, key: AgentKey, agent: AgentConfig)
        requires
            old(self).wf(),
        ensures
            final(self).wf(),
            final(self)@ == with_agent(old(self)@, key@, agent@),
    {
        let ghost before = self@;
        let ghost added = (key@, agent@);
        let mut at: usize = 0;
        assert(before.skip(0) =~= before);
        assert(before.take(0) + with_agent(before.skip(0), key@, agent@) =~= with_agent(
            before,
            key@,
            agent@,
        ));
        while at < self.entries.len() && !text::same(self.entries[at].0.as_str(), key.as_str())
            && !text::comes_before(key.as_str(), self.entries[at].0.as_str())
            invariant
                at <= before.len(),
                before == self@,
                before.len() == self.entries@.len(),
                before.take(at as int) + with_agent(before.skip(at as int), key@, agent@)
                    == with_agent(before, key@, agent@),
            decreases before.len() - at,
        {
            proof {
                let rest = before.skip(at as int);
                assert(rest.drop_first() =~= before.skip(at + 1));
                let tail = with_agent(before.skip(at + 1), key@, agent@);
                assert(before.take(at as int) + (seq![rest[0]] + tail) =~= before.take(at + 1)
                    + tail);
            }
            at += 1;
        }
        let ghost rest = before.skip(at as int);
        if at < self.entries.len() && text::same(self.entries[at].0.as_str(), key.as_str()) {
            self.entries.set(at, (key, agent));
            proof {
                assert(self@ =~= before.update(at as int, added));
                assert(before.take(at as int) + (seq![added] + rest.drop_first())
                    =~= before.update(at as int, added));
            }
        } else {
            self.entries.insert(at, (key, agent));
            proof {
                assert(self@ =~= before.insert(at as int, added));
                if at < before.len() {
                    assert(before.take(at as int) + (seq![added] + rest) =~= before.insert(
                        at as int,
                        added,
                    ));
                } else {
                    assert(rest =~= Seq::<(Seq<char>, AgentView)>::empty());
                    assert(before.take(at as int) + seq![added] =~= before.insert(
                        at as int,
                        added,
                    ));
                }
            }
        }
        proof {
            setting_an_agent_keeps_the_order(before, key@, agent@);
        }
    }
}

proof fn lemma_with_agent_heads(
    entries: Seq<(Seq<char>, AgentView)>,
    key: Seq<char>,
    agent: AgentView,
)
    ensures
        forall|i: int|
            0 <= i < with_agent(entries, key, agent).len() ==> (#[trigger] with_agent(
                entries,
                key,
                agent,
            )[i]).0 == key || exists|j: int|
                0 <= j < entries.len() && (#[trigger] entries[j]).0 == with_agent(
                    entries,
                    key,
                    agent,
                )[i].0,
    decreases entries.len(),
{
    if entries.len() > 0 {
        let all = with_agent(entries, key, agent);
        let rest = entries.drop_first();
        lemma_with_agent_heads(rest, key, agent);
        assert forall|i: int| 0 <= i < all.len() implies (#[trigger] all[i]).0 == key || exists|
            j: int,
        |
            0 <= j < entries.len() && (#[trigger] entries[j]).0 == all[i].0 by {
            if entries[0].0 == key {
                if i > 0 {
                    assert(all[i] == entries[i]);
                }
            } else if text::precedes(key, entries[0].0) {
                if i > 0 {
                    assert(all[i] == entries[i - 1]);
                }
            } else if i == 0 {
                assert(all[0] == entries[0]);
            } else {
                let tail = with_agent(rest, key, agent);
                assert(all[i] == tail[i - 1]);
                if tail[i - 1].0 != key {
                    let j = choose|j: int| 0 <= j < rest.len() && (#[trigger] rest[j]).0 == tail[i
                        - 1].0;
                    assert(entries[j + 1] == rest[j]);
                }
            }
        }
    }
}

/// Setting an agent keeps the agents in the order of their keys, without a key
/// twice.
pub proof fn setting_an_agent_keeps_the_order(
    entries: Seq<(Seq<char>, AgentView)>,
    key: Seq<char>,
    agent: AgentView,
)
    requires
        ordered(entries),
    ensures
        ordered(with_agent(entries, key, agent)),
    decreases entries.len(),
{
    let all = with_agent(entries, key, agent);
    if entries.len() > 0 {
        let rest = entries.drop_first();
        assert(ordered(rest)) by {
            assert forall|i: int, j: int| 0 <= i < j < rest.len() implies text::precedes(
                (#[trigger] rest[i]).0,
                (#[trigger] rest[j]).0,
            ) by {
                assert(rest[i] == entries[i + 1] && rest[j] == entries[j + 1]);
            }
        }
        if entries[0].0 == key {
            assert forall|i: int, j: int| 0 <= i < j < all.len() implies text::precedes(
                (#[trigger] all[i]).0,
                (#[trigger] all[j]).0,
            ) by {
                assert(all[i].0 == entries[i].0 && all[j].0 == entries[j].0);
            }
        } else if text::precedes(key, entries[0].0) {
            assert forall|i: int, j: int| 0 <= i < j < all.len() implies text::precedes(
                (#[trigger] all[i]).0,
                (#[trigger] all[j]).0,
            ) by {
                assert(all[j] == entries[j - 1]);
                if i == 0 {
                    if j > 1 {
                        text::lemma_precedes_transitive(key, entries[0].0, entries[j - 1].0);
                    }
                } else {
                    assert(all[i] == entries[i - 1]);
                }
            }
        } else {
            text::lemma_precedes_total(key, entries[0].0);
            setting_an_agent_keeps_the_order(rest, key, agent);
            lemma_with_agent_heads(rest, key, agent);
            let tail = with_agent(rest, key, agent);
            assert forall|i: int, j: int| 0 <= i < j < all.len() implies text::precedes(
                (#[trigger] all[i]).0,
                (#[trigger] all[j]).0,
            ) by {
                assert(all[j] == tail[j - 1]);
                if i == 0 {
                    if tail[j - 1].0 != key {
                        let k = choose|k: int| 0 <= k < rest.len() && (#[trigger] rest[k]).0
                            == tail[j - 1].0;
                        assert(rest[k] == entries[k + 1]);
                    }
                } else {
                    assert(all[i] == tail[i - 1]);
                }
            }
        }
    }
}

/// Complete configuration for one Agentcord process.
#[derive(Clone)]
pub struct Config {
    /// Discord connection and projection settings.
    pub discord: DiscordConfig,
    /// Project path resolution settings.
    pub projects: ProjectsConfig,
    /// Configured ACP agents keyed by stable identifier.
    pub agents: Agents,
    /// Permission-response behavior.
    pub permissions: PermissionsConfig,
    /// Operation time limits and render debounce interval.
    pub timeouts: Timeouts,
}

/// What keeps an agent from being shown on Discord.
pub open spec fn agent_problem(key: Seq<char>, agent: AgentView) -> Option<Seq<char>> {
    if text::is_blank(key) || key.len() > AGENT_KEY_LIMIT {
        Some(
            "agent key `"@ + key
                + "` must contain 1–20 characters because it names the forum tag"@,
        )
    } else if text::is_blank(agent.display_name) || agent.display_name.len() > DISPLAY_NAME_LIMIT {
        Some("agent `"@ + key + "` display name must contain 1–100 characters"@)
    } else if agent.command.len() == 0 {
        Some("agent `"@ + key + "` has an empty command"@)
    } else {
        match agent.emoji {
            EmojiView::Unicode(value) => if text::is_blank(value) {
                Some("agent `"@ + key + "` has an empty tag emoji"@)
            } else {
                None
            },
            EmojiView::Custom(id, _) => if id.0 == 0 {
                Some("agent `"@ + key + "` has an invalid custom emoji id"@)
            } else {
                None
            },
        }
    }
}

/// The first problem among agents.
pub open spec fn first_problem(entries: Seq<(Seq<char>, AgentView)>) -> Option<Seq<char>>
    decreases entries.len(),
{
    if entries.len() == 0 {
        None
    } else {
        let (key, agent) = entries[0];
        match agent_problem(key, agent) {
            Some(problem) => Some(problem),
            None => first_problem(entries.drop_first()),
        }
    }
}

/// What keeps a set of agents from being shown on Discord.
pub open spec fn agents_problem(entries: Seq<(Seq<char>, AgentView)>) -> Option<Seq<char>> {
    if entries.len() == 0 {
        Some("at least one `[agents.<key>]` is required"@)
    } else if entries.len() > DISCORD_FORUM_TAG_LIMIT {
        Some(
            numbers::decimal(entries.len()) + " agents exceed Discord's "@ + numbers::decimal(
                DISCORD_FORUM_TAG_LIMIT as nat,
            ) + "-tag forum limit"@,
        )
    } else if entries.len() > DISCORD_SELECT_LIMIT {
        Some(
            numbers::decimal(entries.len()) + " agents exceed Discord's "@ + numbers::decimal(
                DISCORD_SELECT_LIMIT as nat,
            ) + "-option selector limit"@,
        )
    } else {
        first_problem(entries)
    }
}

/// Tells what keeps an agent from being shown on Discord.
pub fn find_problem(key: &str, agent: &AgentConfig) -> (problem: Option<String>)
    ensures
        text::opt_text(problem) == agent_problem(key@, agent@),
{
    if text::blank(key) || key.unicode_len() > AGENT_KEY_LIMIT {
        return Some(
            text::join3(
                "agent key `",
                key,
                "` must contain 1–20 characters because it names the forum tag",
            ),
        );
    }
    let name = agent.display_name.as_str();
    if text::blank(name) || name.unicode_len() > DISPLAY_NAME_LIMIT {
        return Some(
            text::join3("agent `", key, "` display name must contain 1–100 characters"),
        );
    }
    if agent.command.as_str().is_empty() {
        return Some(text::join3("agent `", key, "` has an empty command"));
    }
    match &agent.emoji {
        TagEmoji::Unicode(value) => if text::blank(value.as_str()) {
            Some(text::join3("agent `", key, "` has an empty tag emoji"))
        } else {
            None
        },
        TagEmoji::Custom { id, .. } => if id.0 == 0 {
            Some(text::join3("agent `", key, "` has an invalid custom emoji id"))
        } else {
            None
        },
    }
}

impl Config {
    /// Rejects invalid identifiers and values that cannot be represented by
    /// Agentcord's Discord surface.
    pub fn validate(&self) -> (result: BotResult)
        ensures
            match agents_problem(self.agents@) {
                None => result is Ok,
                Some(problem) => result matches Err(BotError::Config(message)) && message@
                    == problem,
            },
    {
        let count = self.agents.len();
        if count == 0 {
            return Err(
                BotError::Config(text::copy("at least one `[agents.<key>]` is required")),
            );
        }
        if count > DISCORD_FORUM_TAG_LIMIT {
            return Err(
                BotError::Config(
                    text::join4(
                        numbers::format_usize(count).as_str(),
                        " agents exceed Discord's ",
                        numbers::format_usize(DISCORD_FORUM_TAG_LIMIT).as_str(),
                        "-tag forum limit",
                    ),
                ),
            );
        }
        if count > DISCORD_SELECT_LIMIT {
            return Err(
                BotError::Config(
                    text::join4(
                        numbers::format_usize(count).as_str(),
                        " agents exceed Discord's ",
                        numbers::format_usize(DISCORD_SELECT_LIMIT).as_str(),
                        "-option selector limit",
                    ),
                ),
            );
        }
        let ghost all = self.agents@;
        let mut i: usize = 0;
        assert(all.skip(0) =~= all);
        while i < count
            invariant
                i <= count == all.len(),
                all == self.agents@,
                agents_problem(all) == first_problem(all.skip(i as int)),
            decreases count - i,
        {
            assert(all.skip(i as int).drop_first() =~= all.skip(i + 1));
            match (self.agents.key_at(i), self.agents.agent_at(i)) {
                (Some(key), Some(agent)) => {
                    if let Some(problem) = find_problem(key.as_str(), agent) {
                        return Err(BotError::Config(problem));
                    }
                },
                _ => {},
            }
            i += 1;
        }
        Ok(())
    }

    /// Copies the configuration without what must not be shown: the bot token,
    /// and every agent's arguments and environment.
    pub fn redacted(&self) -> (shown: Config)
        requires
            self.agents.wf(),
        ensures
            shown.discord.bot_token@ == "[REDACTED]"@,
            shown.discord.guild_id == self.discord.guild_id,
            shown.discord.allowed_user_id == self.discord.allowed_user_id,
            shown.discord.forum_channel_id == self.discord.forum_channel_id,
            shown.projects.base_path@ == self.projects.base_path@,
            shown.permissions == self.permissions,
            shown.timeouts == self.timeouts,
            shown.agents@ == redacted_agents(self.agents@),
    {
        let mut agents: Vec<(AgentKey, AgentConfig)> = Vec::new();
        let ghost all = redacted_agents(self.agents@);
        let mut i: usize = 0;
        while i < self.agents.entries.len()
            invariant
                i <= self.agents.entries@.len(),
                all == redacted_agents(self.agents@),
                agents@.len() == i,
                forall|j: int|
                    0 <= j < i ==> ((#[trigger] agents@[j]).0@, agents@[j].1@) == all[j],
            decreases self.agents.entries@.len() - i,
        {
            let agent = &self.agents.entries[i].1;
            let mut args: Vec<String> = Vec::new();
            args.push(text::copy("[REDACTED]"));
            let env: Vec<(String, String)> = Vec::new();
            let shown = AgentConfig {
                display_name: text::copy(agent.display_name.as_str()),
                command: text::copy(agent.command.as_str()),
                args,
                env,
                emoji: agent.emoji.copy(),
            };
            proof {
                assert(text::texts(args@) =~= seq!["[REDACTED]"@]);
                assert(shown@.env =~= Seq::<(Seq<char>, Seq<char>)>::empty());
            }
            agents.push((self.agents.entries[i].0.copy(), shown));
            i += 1;
        }
        let shown = Agents { entries: agents };
        assert(shown@ =~= all);
        Config {
            discord: DiscordConfig {
                bot_token: text::copy("[REDACTED]"),
                guild_id: self.discord.guild_id,
                allowed_user_id: self.discord.allowed_user_id,
                forum_channel_id: self.discord.forum_channel_id,
            },
            projects: ProjectsConfig { base_path: text::copy(self.projects.base_path.as_str()) },
            agents: shown,
            permissions: self.permissions,
            timeouts: self.timeouts,
        }
    }
}

/// An agent's settings without its arguments and environment.
pub open spec fn redacted_agent(agent: AgentView) -> AgentView {
    AgentView { args: seq!["[REDACTED]"@], env: Seq::empty(), ..agent }
}

/// Agents without their arguments and environments.
pub open spec fn redacted_agents(entries: Seq<(Seq<char>, AgentView)>) -> Seq<
    (Seq<char>, AgentView),
> {
    entries.map_values(
        |entry: (Seq<char>, AgentView)| (entry.0, redacted_agent(entry.1)),
    )
}

/// A configuration is accepted exactly when it has between one and twenty agents
/// and none of them has a problem.
pub proof fn accepted_agents_have_no_problem(entries: Seq<(Seq<char>, AgentView)>)
    ensures
        agents_problem(entries) is None <==> {
            &&& 0 < entries.len() <= DISCORD_FORUM_TAG_LIMIT
            &&& forall|i: int|
                0 <= i < entries.len() ==> agent_problem(
                    (#[trigger] entries[i]).0,
                    entries[i].1,
                ) is None
        },
{
    lemma_first_problem(entries);
}

proof fn lemma_first_problem(entries: Seq<(Seq<char>, AgentView)>)
    ensures
        first_problem(entries) is None <==> forall|i: int|
            0 <= i < entries.len() ==> agent_problem(
                (#[trigger] entries[i]).0,
                entries[i].1,
            ) is None,
    decreases entries.len(),
{
    if entries.len() > 0 {
        let rest = entries.drop_first();
        lemma_first_problem(rest);
        assert(forall|i: int| 0 <= i < rest.len() ==> rest[i] == #[trigger] entries[i + 1]);
        if first_problem(rest) is None && agent_problem(entries[0].0, entries[0].1) is None {
            assert forall|i: int| 0 <= i < entries.len() implies agent_problem(
                (#[trigger] entries[i]).0,
                entries[i].1,
            ) is None by {
                if i > 0 {
                    assert(entries[i] == rest[i - 1]);
                }
            }
        }
        if forall|i: int|
            0 <= i < entries.len() ==> agent_problem(
                (#[trigger] entries[i]).0,
                entries[i].1,
            ) is None {
            assert forall|i: int| 0 <= i < rest.len() implies agent_problem(
                (#[trigger] rest[i]).0,
                rest[i].1,
            ) is None by {
                assert(rest[i] == entries[i + 1]);
            }
        }
    }
}

/// Characters that an environment-variable name may start with.
pub open spec fn starts_name(c: char) -> bool {
    c == '_' || ('A' <= c && c <= 'Z') || ('a' <= c && c <= 'z')
}

/// Texts that can name an environment variable.
pub open spec fn is_env_name(name: Seq<char>) -> bool {
    &&& name.len() > 0
    &&& starts_name(name[0])
    &&& forall|i: int|
        1 <= i < name.len() ==> starts_name(#[trigger] name[i]) || numbers::is_digit(name[i])
}

/// Validates a candidate environment-variable name.
pub fn valid_env_name(name: &str) -> (result: bool)
    ensures
        result == is_env_name(name@),
{
    let chars = text::chars_of(name);
    if chars.len() == 0 {
        return false;
    }
    let mut i: usize = 0;
    while i < chars.len()
        invariant
            i <= chars@.len(),
            chars@ == name@,
            i > 0 ==> starts_name(name@[0]),
            forall|j: int|
                1 <= j < i ==> starts_name(#[trigger] name@[j]) || numbers::is_digit(name@[j]),
        decreases chars@.len() - i,
    {
        let c: char = chars[i];
        let letter = c == '_' || ('A' <= c && c <= 'Z') || ('a' <= c && c <= 'z');
        let digit = '0' <= c && c <= '9';
        if !letter && (i == 0 || !digit) {
            return false;
        }
        i += 1;
    }
    true
}

/// One piece of a template.
pub ghost enum Token {
    /// Text that stands for itself.
    Literal(Seq<char>),
    /// A reference to an environment variable.
    Name(Seq<char>),
}

/// The text that a piece of a template is written as.
pub open spec fn token_text(token: Token) -> Seq<char> {
    match token {
        Token::Literal(value) => value,
        Token::Name(name) => "${"@ + name + "}"@,
    }
}

/// The position of the first `${` at or after `from`, or the length.
pub open spec fn reference_at(s: Seq<char>, from: int) -> int
    decreases s.len() - from,
{
    if from < 0 || from + 1 >= s.len() {
        s.len() as int
    } else if s[from] == '$' && s[from + 1] == '{' {
        from
    } else {
        reference_at(s, from + 1)
    }
}

/// The pieces of a template from a position on.
pub open spec fn tokens_from(s: Seq<char>, from: int) -> Seq<Token>
    decreases s.len() - from,
{
    if from < 0 || from > s.len() {
        Seq::empty()
    } else {
        let start = reference_at(s, from);
        let end = text::first_at(s, '}', start + 2);
        if start >= s.len() || end >= s.len() {
            seq![Token::Literal(s.skip(from))]
        } else {
            proof {
                lemma_reference_at(s, from);
                text::lemma_first_at(s, '}', start + 2);
            }
            let name = s.subrange(start + 2, end);
            let reference = if is_env_name(name) {
                Token::Name(name)
            } else {
                Token::Literal(s.subrange(start, end + 1))
            };
            seq![Token::Literal(s.subrange(from, start)), reference] + tokens_from(s, end + 1)
        }
    }
}

/// The pieces of a template.
pub open spec fn tokens_of(s: Seq<char>) -> Seq<Token> {
    tokens_from(s, 0)
}

/// What `reference_at` finds is the first reference.
pub proof fn lemma_reference_at(s: Seq<char>, from: int)
    requires
        0 <= from <= s.len(),
    ensures
        from <= reference_at(s, from) <= s.len(),
        reference_at(s, from) < s.len() ==> reference_at(s, from) + 2 <= s.len()
            && s[reference_at(s, from)] == '$' && s[reference_at(s, from) + 1] == '{',
    decreases s.len() - from,
{
    if from + 1 < s.len() && !(s[from] == '$' && s[from + 1] == '{') {
        lemma_reference_at(s, from + 1);
    }
}

/// A lookup may give a value for a name.
pub open spec fn may_give<F: Fn(&str) -> Option<String>>(
    lookup: F,
    name: Seq<char>,
    value: Option<Seq<char>>,
) -> bool {
    exists|asked: &str, given: Option<String>|
        asked@ == name && #[trigger] lookup.ensures((asked,), given) && text::opt_text(given)
            == value
}

/// What a piece of a template becomes: itself, or for a reference the value a
/// lookup gives, and the reference as it is written where it gives none.
pub open spec fn may_become<F: Fn(&str) -> Option<String>>(
    lookup: F,
    token: Token,
    value: Seq<char>,
) -> bool {
    match token {
        Token::Literal(literal) => value == literal,
        Token::Name(name) => (value == token_text(token) && may_give(lookup, name, None))
            || may_give(lookup, name, Some(value)),
    }
}

/// Values that the pieces of a template become.
pub open spec fn may_become_all<F: Fn(&str) -> Option<String>>(
    lookup: F,
    tokens: Seq<Token>,
    values: Seq<Seq<char>>,
) -> bool {
    &&& values.len() == tokens.len()
    &&& forall|i: int|
        0 <= i < tokens.len() ==> may_become(lookup, #[trigger] tokens[i], #[trigger] values[i])
}

/// A text is what a template becomes: the values of its pieces in order. The
/// values themselves are not read as templates.
pub open spec fn expands_to<F: Fn(&str) -> Option<String>>(
    lookup: F,
    template: Seq<char>,
    output: Seq<char>,
) -> bool {
    exists|values: Seq<Seq<char>>|
        #[trigger] may_become_all(lookup, tokens_of(template), values) && output == text::joined(
            values,
        )
}

fn find_reference(chars: &Vec<char>, from: usize) -> (at: usize)
    requires
        from <= chars@.len(),
    ensures
        at == reference_at(chars@, from as int),
        from <= at <= chars@.len(),
        at < chars@.len() ==> at + 2 <= chars@.len(),
{
    let mut at: usize = from;
    while at < chars.len()
        invariant
            from <= at <= chars@.len(),
            reference_at(chars@, from as int) == reference_at(chars@, at as int),
        decreases chars@.len() - at,
    {
        if chars.len() - at < 2 {
            return chars.len();
        }
        if chars[at] == '$' && chars[at + 1] == '{' {
            return at;
        }
        at += 1;
    }
    at
}

/// Expands `${NAME}` references in one string.
///
/// A single pass is intentional: if an environment value contains another
/// placeholder, that value is not interpreted as a second template.
pub fn expand_string<F>(value: &str, lookup: &F) -> (output: String)
    where F: Fn(&str) -> Option<String>
    requires
        forall|name: &str| is_env_name(name@) ==> #[trigger] lookup.requires((name,)),
    ensures
        expands_to(*lookup, value@, output@),
{
    let chars = text::chars_of(value);
    let mut output = String::new();
    let mut from: usize = 0;
    let ghost all = tokens_of(value@);
    let ghost mut done: Seq<Token> = Seq::empty();
    let ghost mut values: Seq<Seq<char>> = Seq::empty();
    assert(done + tokens_from(value@, 0) =~= all);
    loop
        invariant
            forall|name: &str| is_env_name(name@) ==> #[trigger] lookup.requires((name,)),
            chars@ == value@,
            from <= chars@.len(),
            all == tokens_of(value@),
            done + tokens_from(value@, from as int) == all,
            may_become_all(*lookup, done, values),
            output@ == text::joined(values),
        decreases chars@.len() - from,
    {
        let start = find_reference(&chars, from);
        let end = if start < chars.len() {
            text::find_char(&chars, '}', start + 2)
        } else {
            chars.len()
        };
        if start == chars.len() || end == chars.len() {
            let rest = text::string_of(&chars, from, chars.len());
            output.append(rest.as_str());
            proof {
                assert(rest@ =~= value@.skip(from as int));
                text::lemma_joined_push(values, rest@);
                values = values.push(rest@);
                done = done.push(Token::Literal(rest@));
                assert(done =~= all);
                assert(may_become_all(*lookup, done, values));
            }
            return output;
        }
        let literal = text::string_of(&chars, from, start);
        let name = text::string_of(&chars, start + 2, end);
        let written = text::string_of(&chars, start, end + 1);
        output.append(literal.as_str());
        let replaced = if valid_env_name(name.as_str()) {
            match lookup(name.as_str()) {
                Some(found) => {
                    assert(may_give(*lookup, name@, Some(found@)));
                    found
                },
                None => {
                    assert(may_give(*lookup, name@, None));
                    written
                },
            }
        } else {
            written
        };
        output.append(replaced.as_str());
        proof {
            let reference = if is_env_name(name@) {
                Token::Name(name@)
            } else {
                Token::Literal(written@)
            };
            lemma_reference_at(value@, from as int);
            reveal_strlit("${");
            reveal_strlit("}");
            assert("${"@ + name@ + "}"@ =~= written@);
            assert(may_become(*lookup, reference, replaced@));
            text::lemma_joined_push(values, literal@);
            text::lemma_joined_push(values.push(literal@), replaced@);
            let head = seq![Token::Literal(literal@), reference];
            assert(tokens_from(value@, from as int) == head + tokens_from(value@, end + 1));
            let tail = tokens_from(value@, end + 1);
            assert(done + (head + tail) =~= done + head + tail);
            assert(done + head =~= done.push(Token::Literal(literal@)).push(reference));
            values = values.push(literal@).push(replaced@);
            done = done + head;
            assert(may_become_all(*lookup, done, values));
        }
        from = end + 1;
    }
}

/// A template without a reference has itself as its only piece, so expanding it
/// changes nothing.
pub proof fn a_text_without_references_is_kept(template: Seq<char>)
    requires
        reference_at(template, 0) == template.len(),
    ensures
        tokens_of(template) == seq![Token::Literal(template)],
{
    assert(template.skip(0) =~= template);
}

proof fn lemma_tokens_text(s: Seq<char>, from: int)
    requires
        0 <= from <= s.len(),
    ensures
        text::joined(tokens_from(s, from).map_values(|token: Token| token_text(token)))
            == s.skip(from),
    decreases s.len() - from,
{
    let show = |token: Token| token_text(token);
    let tokens = tokens_from(s, from);
    let start = reference_at(s, from);
    lemma_reference_at(s, from);
    let end = text::first_at(s, '}', start + 2);
    if start >= s.len() || end >= s.len() {
        assert(tokens.map_values(show) =~= seq![s.skip(from)]);
        text::lemma_joined_one(s.skip(from));
    } else {
        text::lemma_first_at(s, '}', start + 2);
        lemma_tokens_text(s, end + 1);
        let name = s.subrange(start + 2, end);
        let reference = tokens[1];
        let written = s.subrange(start, end + 1);
        reveal_strlit("${");
        reveal_strlit("}");
        assert("${"@ + name + "}"@ =~= written);
        assert(token_text(reference) == written);
        let head = s.subrange(from, start);
        let rest = tokens_from(s, end + 1).map_values(show);
        assert(tokens.map_values(show) =~= seq![head, written] + rest);
        assert(seq![head, written] =~= seq![head] + seq![written]);
        text::lemma_joined_one(head);
        text::lemma_joined_one(written);
        text::lemma_joined_add(seq![head], seq![written]);
        text::lemma_joined_add(seq![head, written], rest);
        assert(head + written + s.skip(end + 1) =~= s.skip(from));
    }
}

/// The pieces of a template, as they are written, are the template: expansion
/// leaves everything in place but the references it replaces.
pub proof fn the_pieces_make_up_the_template(template: Seq<char>)
    ensures
        text::joined(tokens_of(template).map_values(|token: Token| token_text(token)))
            == template,
{
    lemma_tokens_text(template, 0);
    assert(template.skip(0) =~= template);
}

/// A configuration value tree. `Other` carries a leaf that is not a text.
pub enum Setting<T> {
    /// A text.
    Text(String),
    /// Named values.
    Table(Vec<(String, Setting<T>)>),
    /// Values in order.
    List(Vec<Setting<T>>),
    /// Any other leaf.
    Other(T),
}

/// One tree is another with every text expanded and everything else kept.
pub open spec fn expands_tree<T, F: Fn(&str) -> Option<String>>(
    lookup: F,
    before: Setting<T>,
    after: Setting<T>,
) -> bool
    decreases before,
{
    match (before, after) {
        (Setting::Text(template), Setting::Text(output)) => expands_to(
            lookup,
            template@,
            output@,
        ),
        (Setting::Table(old_table), Setting::Table(new_table)) => {
            &&& old_table@.len() == new_table@.len()
            &&& forall|i: int|
                #![trigger old_table@[i]]
                #![trigger new_table@[i]]
                0 <= i < old_table@.len() ==> old_table@[i].0@ == new_table@[i].0@ && expands_tree(
                    lookup,
                    old_table@[i].1,
                    new_table@[i].1,
                )
        },
        (Setting::List(old_list), Setting::List(new_list)) => {
            &&& old_list@.len() == new_list@.len()
            &&& forall|i: int|
                #![trigger old_list@[i]]
                #![trigger new_list@[i]]
                0 <= i < old_list@.len() ==> expands_tree(lookup, old_list@[i], new_list@[i])
        },
        (Setting::Other(old_leaf), Setting::Other(new_leaf)) => old_leaf == new_leaf,
        _ => false,
    }
}

/// Recursively expands environment references in configuration values.
pub fn expand_value<T, F>(value: Setting<T>, lookup: &F) -> (result: Setting<T>)
    where F: Fn(&str) -> Option<String>
    requires
        forall|name: &str| is_env_name(name@) ==> #[trigger] lookup.requires((name,)),
    ensures
        expands_tree(*lookup, value, result),
    decreases value,
{
    match value {
        Setting::Text(template) => Setting::Text(expand_string(template.as_str(), lookup)),
        Setting::Table(table) => {
            let ghost all = table@;
            let mut table = table;
            let mut output: Vec<(String, Setting<T>)> = Vec::new();
            while table.len() > 0
                invariant
                    forall|name: &str| is_env_name(name@) ==> #[trigger] lookup.requires((name,)),
                    value == Setting::Table(value->Table_0),
                    all == value->Table_0@,
                    output@.len() + table@.len() == all.len(),
                    forall|i: int|
                        0 <= i < table@.len() ==> #[trigger] table@[i] == all[i + output@.len()],
                    forall|i: int|
                        0 <= i < output@.len() ==> all[i].0@ == (#[trigger] output@[i]).0@
                            && expands_tree(*lookup, all[i].1, output@[i].1),
                decreases table@.len(),
            {
                let ghost at = output@.len() as int;
                let (key, child) = table.remove(0);
                assert(all[at] == (key, child));
                let expanded = expand_value(child, lookup);
                output.push((key, expanded));
            }
            Setting::Table(output)
        },
        Setting::List(list) => {
            let ghost all = list@;
            let mut list = list;
            let mut output: Vec<Setting<T>> = Vec::new();
            while list.len() > 0
                invariant
                    forall|name: &str| is_env_name(name@) ==> #[trigger] lookup.requires((name,)),
                    value == Setting::List(value->List_0),
                    all == value->List_0@,
                    output@.len() + list@.len() == all.len(),
                    forall|i: int|
                        0 <= i < list@.len() ==> #[trigger] list@[i] == all[i + output@.len()],
                    forall|i: int|
                        0 <= i < output@.len() ==> expands_tree(
                            *lookup,
                            all[i],
                            #[trigger] output@[i],
                        ),
                decreases list@.len(),
            {
                let ghost at = output@.len() as int;
                let child = list.remove(0);
                assert(all[at] == child);
                let expanded = expand_value(child, lookup);
                output.push(expanded);
            }
            Setting::List(output)
        },
        Setting::Other(leaf) => Setting::Other(leaf),
    }
}

} // verus!
