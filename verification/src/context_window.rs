//! The context-window segment: how much of the model's context the latest
//! assistant turn used, and the prompt-cache hit rate over the session.
//!
//! A transcript is a JSON-lines file. The caller parses each line into a
//! [`TranscriptEntry`] (or `None` when the line is blank or not an entry) and
//! hands the lines over in file order; everything that is decided about them
//! is decided here.

use vstd::prelude::*;
use vstd::string::*;
use crate::segment::SegmentId;
use crate::text::{decimal, push_decimal};

verus! {

/// The segment that reports context-window usage.
#[derive(Clone, Copy, Debug, Default, PartialEq, Eq, Structural)]
pub struct ContextWindowSegment;

impl ContextWindowSegment {
    pub fn new() -> (s: Self)
        ensures
            s == ContextWindowSegment,
    {
        ContextWindowSegment
    }

    pub fn id(&self) -> (id: SegmentId)
        ensures
            id == SegmentId::ContextWindow,
    {
        SegmentId::ContextWindow
    }
}

/// The role recorded in a transcript line's `type` field.
#[derive(Clone, Copy, Debug, PartialEq, Eq, Structural)]
pub enum EntryKind {
    Summary,
    Assistant,
    User,
    /// Any other value, or no `type` field at all.
    Other,
}

/// The kind that a `type` field names.
pub open spec fn kind_named(t: Option<Seq<char>>) -> EntryKind {
    match t {
        Some(s) => if s == "summary"@ {
            EntryKind::Summary
        } else if s == "assistant"@ {
            EntryKind::Assistant
        } else if s == "user"@ {
            EntryKind::User
        } else {
            EntryKind::Other
        },
        None => EntryKind::Other,
    }
}

pub open spec fn opt_str_view(t: Option<&str>) -> Option<Seq<char>> {
    match t {
        Some(s) => Some(s@),
        None => None,
    }
}

/// Whether two strings hold the same characters.
pub fn same_text(a: &str, b: &str) -> (eq: bool)
    ensures
        eq == (a@ == b@),
{
    let n = a.unicode_len();
    if n != b.unicode_len() {
        return false;
    }
    let mut i: usize = 0;
    while i < n
        invariant
            n == a@.len(),
            n == b@.len(),
            0 <= i <= n,
            forall|k: int| 0 <= k < i ==> a@[k] == b@[k],
        decreases n - i,
    {
        if a.get_char(i) != b.get_char(i) {
            return false;
        }
        i = i + 1;
    }
    assert(a@ =~= b@);
    true
}

impl EntryKind {
    /// Classifies the `type` field of a transcript line.
    pub fn from_type(t: Option<&str>) -> (k: EntryKind)
        ensures
            k == kind_named(opt_str_view(t)),
    {
        match t {
            Some(s) => if same_text(s, "summary") {
                EntryKind::Summary
            } else if same_text(s, "assistant") {
                EntryKind::Assistant
            } else if same_text(s, "user") {
                EntryKind::User
            } else {
                EntryKind::Other
            },
            None => EntryKind::Other,
        }
    }
}

/// The token counts of one assistant turn, as the segment reads them.
#[derive(Clone, Copy, Debug, PartialEq, Eq, Structural)]
pub struct UsageFigures {
    /// The number of tokens the turn occupies in the context window.
    pub display_tokens: u32,
    pub input_tokens: u32,
    pub cache_creation_input_tokens: u32,
    pub cache_read_input_tokens: u32,
}

/// One parsed transcript line.
#[derive(Clone, Debug)]
pub struct TranscriptEntry {
    pub kind: EntryKind,
    pub uuid: Option<String>,
    pub parent_uuid: Option<String>,
    /// Set on summary lines: the last message that the summary covers.
    pub leaf_uuid: Option<String>,
    /// The usage of the line's message, when it has a message with usage.
    pub usage: Option<UsageFigures>,
}

/// The usage an entry contributes as an assistant turn.
pub open spec fn assistant_usage(e: Option<TranscriptEntry>) -> Option<UsageFigures> {
    match e {
        Some(x) => if x.kind == EntryKind::Assistant {
            x.usage
        } else {
            None
        },
        None => None,
    }
}

/// The usage of the last assistant turn with usage among the first `i` lines.
pub open spec fn latest_usage_before(s: Seq<Option<TranscriptEntry>>, i: int) -> Option<
    UsageFigures,
>
    decreases i,
{
    if i <= 0 {
        None
    } else if assistant_usage(s[i - 1]) is Some {
        assistant_usage(s[i - 1])
    } else {
        latest_usage_before(s, i - 1)
    }
}

/// The usage of the last assistant turn with usage in a transcript.
pub open spec fn latest_assistant_usage(s: Seq<Option<TranscriptEntry>>) -> Option<UsageFigures> {
    latest_usage_before(s, s.len() as int)
}

/// A transcript that ends in an assistant turn with usage reports that
/// turn's usage, whatever came before.
pub proof fn latest_turn_is_reported(
    s: Seq<Option<TranscriptEntry>>,
    e: TranscriptEntry,
    u: UsageFigures,
)
    requires
        e.kind == EntryKind::Assistant,
        e.usage == Some(u),
    ensures
        transcript_outcome(s.push(Some(e))) == TranscriptLookup::Found(u),
{
    let t = s.push(Some(e));
    assert(t[t.len() - 1] == Some(e));
}

proof fn lemma_latest_usage_is_last_turn(s: Seq<Option<TranscriptEntry>>, i: int, k: int)
    requires
        0 <= k < i <= s.len(),
        s[k] is Some,
        s[k]->0.kind == EntryKind::Assistant,
        s[k]->0.usage is Some,
        forall|j: int|
            k < j < i ==> !(#[trigger] s[j] is Some && s[j]->0.kind == EntryKind::Assistant
                && s[j]->0.usage is Some),
    ensures
        latest_usage_before(s, i) == s[k]->0.usage,
    decreases i,
{
    if i - 1 > k {
        assert(!(s[i - 1] is Some && s[i - 1]->0.kind == EntryKind::Assistant && s[i
            - 1]->0.usage is Some));
        lemma_latest_usage_is_last_turn(s, i - 1, k);
    }
}

proof fn lemma_latest_usage_none(s: Seq<Option<TranscriptEntry>>, i: int)
    requires
        0 <= i <= s.len(),
        forall|j: int|
            0 <= j < i ==> !(#[trigger] s[j] is Some && s[j]->0.kind == EntryKind::Assistant
                && s[j]->0.usage is Some),
    ensures
        latest_usage_before(s, i) is None,
    decreases i,
{
    if i > 0 {
        assert(!(s[i - 1] is Some && s[i - 1]->0.kind == EntryKind::Assistant && s[i
            - 1]->0.usage is Some));
        lemma_latest_usage_none(s, i - 1);
    }
}

/// Unless the transcript ends in a summary that names a leaf, it reports the
/// usage of its last assistant turn that carries usage, whatever lines of
/// other kinds follow that turn; with no such turn it reports nothing.
pub proof fn transcript_reports_last_assistant_turn(s: Seq<Option<TranscriptEntry>>)
    requires
        !(s.len() > 0 && s.last() is Some && s.last()->0.kind == EntryKind::Summary
            && s.last()->0.leaf_uuid is Some),
    ensures
        forall|k: int|
            0 <= k < s.len() && #[trigger] s[k] is Some && s[k]->0.kind == EntryKind::Assistant
                && s[k]->0.usage is Some && (forall|j: int|
                k < j < s.len() ==> !(#[trigger] s[j] is Some && s[j]->0.kind
                    == EntryKind::Assistant && s[j]->0.usage is Some)) ==> transcript_outcome(s)
                == TranscriptLookup::Found(s[k]->0.usage->0),
        (forall|j: int|
            0 <= j < s.len() ==> !(#[trigger] s[j] is Some && s[j]->0.kind == EntryKind::Assistant
                && s[j]->0.usage is Some)) ==> transcript_outcome(s) == TranscriptLookup::Missing,
{
    assert forall|k: int|
        0 <= k < s.len() && #[trigger] s[k] is Some && s[k]->0.kind == EntryKind::Assistant
            && s[k]->0.usage is Some && (forall|j: int|
            k < j < s.len() ==> !(#[trigger] s[j] is Some && s[j]->0.kind == EntryKind::Assistant
                && s[j]->0.usage is Some)) implies transcript_outcome(s) == TranscriptLookup::Found(
        s[k]->0.usage->0,
    ) by {
        lemma_latest_usage_is_last_turn(s, s.len() as int, k);
    }
    if forall|j: int|
        0 <= j < s.len() ==> !(#[trigger] s[j] is Some && s[j]->0.kind == EntryKind::Assistant
            && s[j]->0.usage is Some) {
        lemma_latest_usage_none(s, s.len() as int);
    }
}

/// What a transcript says about the current context usage.
#[derive(Debug)]
pub enum TranscriptLookup {
    /// The usage of the latest assistant turn.
    Found(UsageFigures),
    /// The transcript ends in a summary: the usage is that of the message
    /// with this uuid, to be searched for in the sessions of the project.
    FollowLeaf(String),
    /// No usage is known.
    Missing,
}

pub open spec fn transcript_outcome(s: Seq<Option<TranscriptEntry>>) -> TranscriptLookup {
    if s.len() > 0 && s.last() is Some && s.last()->0.kind == EntryKind::Summary
        && s.last()->0.leaf_uuid is Some {
        TranscriptLookup::FollowLeaf(s.last()->0.leaf_uuid->0)
    } else {
        match latest_assistant_usage(s) {
            Some(u) => TranscriptLookup::Found(u),
            None => TranscriptLookup::Missing,
        }
    }
}

/// Reads a transcript: a final summary line points elsewhere; otherwise the
/// latest assistant turn that carries usage is the answer.
pub fn try_parse_transcript_file(lines: &Vec<Option<TranscriptEntry>>) -> (r: TranscriptLookup)
    ensures
        r == transcript_outcome(lines@),
        lines@.len() > 0 && lines@.last() is Some && lines@.last()->0.kind == EntryKind::Summary
            && lines@.last()->0.leaf_uuid is Some ==> r == TranscriptLookup::FollowLeaf(
            lines@.last()->0.leaf_uuid->0,
        ),
        !(lines@.len() > 0 && lines@.last() is Some && lines@.last()->0.kind == EntryKind::Summary
            && lines@.last()->0.leaf_uuid is Some) ==> (forall|k: int|
            0 <= k < lines@.len() && #[trigger] lines@[k] is Some && lines@[k]->0.kind
                == EntryKind::Assistant && lines@[k]->0.usage is Some && (forall|j: int|
                k < j < lines@.len() ==> !(#[trigger] lines@[j] is Some && lines@[j]->0.kind
                    == EntryKind::Assistant && lines@[j]->0.usage is Some)) ==> r
                == TranscriptLookup::Found(lines@[k]->0.usage->0)),
        !(lines@.len() > 0 && lines@.last() is Some && lines@.last()->0.kind == EntryKind::Summary
            && lines@.last()->0.leaf_uuid is Some) ==> ((forall|j: int|
            0 <= j < lines@.len() ==> !(#[trigger] lines@[j] is Some && lines@[j]->0.kind
                == EntryKind::Assistant && lines@[j]->0.usage is Some)) ==> r
            == TranscriptLookup::Missing),
{
    let n = lines.len();
    if n == 0 {
        proof {
            transcript_reports_last_assistant_turn(lines@);
        }
        return TranscriptLookup::Missing;
    }
    if let Some(last) = &lines[n - 1] {
        if last.kind == EntryKind::Summary {
            if let Some(leaf) = &last.leaf_uuid {
                return TranscriptLookup::FollowLeaf(leaf.clone());
            }
        }
    }
    let mut i: usize = n;
    while i > 0
        invariant
            n == lines@.len(),
            0 <= i <= n,
            latest_usage_before(lines@, i as int) == latest_assistant_usage(lines@),
            !(lines@.last() is Some && lines@.last()->0.kind == EntryKind::Summary
                && lines@.last()->0.leaf_uuid is Some),
        decreases i,
    {
        if let Some(entry) = &lines[i - 1] {
            if entry.kind == EntryKind::Assistant {
                if let Some(u) = entry.usage {
                    proof {
                        transcript_reports_last_assistant_turn(lines@);
                    }
                    return TranscriptLookup::Found(u);
                }
            }
        }
        i = i - 1;
    }
    proof {
        transcript_reports_last_assistant_turn(lines@);
    }
    TranscriptLookup::Missing
}


/// Whether a line is an entry with the given uuid.
pub open spec fn has_uuid(e: Option<TranscriptEntry>, target: Seq<char>) -> bool {
    e is Some && e->0.uuid is Some && e->0.uuid->0@ == target
}

/// The first entry at or after line `i` with the given uuid.
pub open spec fn entry_with_uuid_from(s: Seq<Option<TranscriptEntry>>, target: Seq<char>, i: int) -> Option<
    TranscriptEntry,
>
    decreases s.len() - i,
{
    if i < 0 || i >= s.len() {
        None
    } else if has_uuid(s[i], target) {
        s[i]
    } else {
        entry_with_uuid_from(s, target, i + 1)
    }
}

/// The usage of the first assistant turn with usage at or after line `i`
/// that has the given uuid.
pub open spec fn assistant_usage_with_uuid_from(
    s: Seq<Option<TranscriptEntry>>,
    target: Seq<char>,
    i: int,
) -> Option<UsageFigures>
    decreases s.len() - i,
{
    if i < 0 || i >= s.len() {
        None
    } else if has_uuid(s[i], target) && assistant_usage(s[i]) is Some {
        assistant_usage(s[i])
    } else {
        assistant_usage_with_uuid_from(s, target, i + 1)
    }
}

/// The usage that the message with uuid `target` stands for in a transcript:
/// the first line with that uuid decides; an assistant turn gives its own
/// usage, a user turn that of the assistant turn it answers.
pub open spec fn usage_for_uuid(s: Seq<Option<TranscriptEntry>>, target: Seq<char>) -> Option<
    UsageFigures,
> {
    match entry_with_uuid_from(s, target, 0) {
        None => None,
        Some(e) => if e.kind == EntryKind::Assistant {
            e.usage
        } else if e.kind == EntryKind::User {
            match e.parent_uuid {
                Some(p) => assistant_usage_with_uuid_from(s, p@, 0),
                None => None,
            }
        } else {
            None
        },
    }
}

proof fn lemma_uuid_entry_in_file(s: Seq<Option<TranscriptEntry>>, target: Seq<char>, i: int)
    requires
        0 <= i,
    ensures
        entry_with_uuid_from(s, target, i) matches Some(e) ==> exists|k: int|
            i <= k < s.len() && #[trigger] s[k] == Some(e),
    decreases s.len() - i,
{
    if i < s.len() && !has_uuid(s[i], target) {
        lemma_uuid_entry_in_file(s, target, i + 1);
    }
}

proof fn lemma_assistant_usage_in_file(s: Seq<Option<TranscriptEntry>>, target: Seq<char>, i: int)
    requires
        0 <= i,
    ensures
        assistant_usage_with_uuid_from(s, target, i) matches Some(u) ==> exists|k: int|
            i <= k < s.len() && #[trigger] assistant_usage(s[k]) == Some(u),
    decreases s.len() - i,
{
    if i < s.len() && !(has_uuid(s[i], target) && assistant_usage(s[i]) is Some) {
        lemma_assistant_usage_in_file(s, target, i + 1);
    }
}

/// Whatever a uuid stands for in a file is the usage of one of that file's
/// assistant turns.
pub proof fn uuid_usage_comes_from_an_assistant_turn(
    s: Seq<Option<TranscriptEntry>>,
    target: Seq<char>,
)
    ensures
        usage_for_uuid(s, target) matches Some(u) ==> exists|k: int|
            0 <= k < s.len() && #[trigger] assistant_usage(s[k]) == Some(u),
{
    lemma_uuid_entry_in_file(s, target, 0);
    if let Some(e) = entry_with_uuid_from(s, target, 0) {
        if e.kind == EntryKind::Assistant {
            if let Some(u) = e.usage {
                let k = choose|k: int| 0 <= k < s.len() && #[trigger] s[k] == Some(e);
                assert(assistant_usage(s[k]) == Some(u));
            }
        } else if e.kind == EntryKind::User {
            if let Some(p) = e.parent_uuid {
                lemma_assistant_usage_in_file(s, p@, 0);
            }
        }
    }
}

proof fn lemma_entry_with_uuid_at(s: Seq<Option<TranscriptEntry>>, target: Seq<char>, i: int, k: int)
    requires
        0 <= i <= k < s.len(),
        has_uuid(s[k], target),
        forall|j: int| i <= j < k ==> !has_uuid(#[trigger] s[j], target),
    ensures
        entry_with_uuid_from(s, target, i) == s[k],
    decreases k - i,
{
    if i < k {
        lemma_entry_with_uuid_at(s, target, i + 1, k);
    }
}

proof fn lemma_entry_with_uuid_none(s: Seq<Option<TranscriptEntry>>, target: Seq<char>, i: int)
    requires
        0 <= i,
        forall|j: int| i <= j < s.len() ==> !has_uuid(#[trigger] s[j], target),
    ensures
        entry_with_uuid_from(s, target, i) is None,
    decreases s.len() - i,
{
    if i < s.len() {
        lemma_entry_with_uuid_none(s, target, i + 1);
    }
}

proof fn lemma_assistant_with_uuid_at(
    s: Seq<Option<TranscriptEntry>>,
    target: Seq<char>,
    i: int,
    k: int,
)
    requires
        0 <= i <= k < s.len(),
        has_uuid(s[k], target) && assistant_usage(s[k]) is Some,
        forall|j: int|
            i <= j < k ==> !(has_uuid(#[trigger] s[j], target) && assistant_usage(s[j]) is Some),
    ensures
        assistant_usage_with_uuid_from(s, target, i) == assistant_usage(s[k]),
    decreases k - i,
{
    if i < k {
        lemma_assistant_with_uuid_at(s, target, i + 1, k);
    }
}

proof fn lemma_assistant_with_uuid_none(s: Seq<Option<TranscriptEntry>>, target: Seq<char>, i: int)
    requires
        0 <= i,
        forall|j: int|
            i <= j < s.len() ==> !(has_uuid(#[trigger] s[j], target) && assistant_usage(s[j]) is Some),
    ensures
        assistant_usage_with_uuid_from(s, target, i) is None,
    decreases s.len() - i,
{
    if i < s.len() {
        lemma_assistant_with_uuid_none(s, target, i + 1);
    }
}

/// Looking up the assistant turn with a uuid: the first line that is an
/// assistant turn with usage and carries that uuid gives the usage; lines
/// before it with the uuid but of another kind or without usage are passed
/// over; with no such line there is no usage.
pub proof fn assistant_lookup_takes_first_match(s: Seq<Option<TranscriptEntry>>, target: Seq<char>)
    ensures
        forall|k: int|
            0 <= k < s.len() && #[trigger] s[k] is Some && s[k]->0.uuid is Some
                && s[k]->0.uuid->0@ == target && s[k]->0.kind == EntryKind::Assistant
                && s[k]->0.usage is Some && (forall|j: int|
                0 <= j < k ==> !(#[trigger] s[j] is Some && s[j]->0.uuid is Some
                    && s[j]->0.uuid->0@ == target && s[j]->0.kind == EntryKind::Assistant
                    && s[j]->0.usage is Some)) ==> assistant_usage_with_uuid_from(s, target, 0)
                == s[k]->0.usage,
        (forall|j: int|
            0 <= j < s.len() ==> !(#[trigger] s[j] is Some && s[j]->0.uuid is Some && s[j]->0.uuid->0@
                == target && s[j]->0.kind == EntryKind::Assistant && s[j]->0.usage is Some))
            ==> assistant_usage_with_uuid_from(s, target, 0) is None,
{
    assert forall|k: int|
        0 <= k < s.len() && #[trigger] s[k] is Some && s[k]->0.uuid is Some && s[k]->0.uuid->0@
            == target && s[k]->0.kind == EntryKind::Assistant && s[k]->0.usage is Some && (forall|
            j: int|
            0 <= j < k ==> !(#[trigger] s[j] is Some && s[j]->0.uuid is Some && s[j]->0.uuid->0@
                == target && s[j]->0.kind == EntryKind::Assistant && s[j]->0.usage is Some))
        implies assistant_usage_with_uuid_from(s, target, 0) == s[k]->0.usage by {
        assert forall|j: int| 0 <= j < k implies !(has_uuid(#[trigger] s[j], target)
            && assistant_usage(s[j]) is Some) by {
            assert(!(s[j] is Some && s[j]->0.uuid is Some && s[j]->0.uuid->0@ == target
                && s[j]->0.kind == EntryKind::Assistant && s[j]->0.usage is Some));
        }
        lemma_assistant_with_uuid_at(s, target, 0, k);
    }
    if forall|j: int|
        0 <= j < s.len() ==> !(#[trigger] s[j] is Some && s[j]->0.uuid is Some && s[j]->0.uuid->0@
            == target && s[j]->0.kind == EntryKind::Assistant && s[j]->0.usage is Some) {
        assert forall|j: int| 0 <= j < s.len() implies !(has_uuid(#[trigger] s[j], target)
            && assistant_usage(s[j]) is Some) by {
            assert(!(s[j] is Some && s[j]->0.uuid is Some && s[j]->0.uuid->0@ == target
                && s[j]->0.kind == EntryKind::Assistant && s[j]->0.usage is Some));
        }
        lemma_assistant_with_uuid_none(s, target, 0);
    }
}

/// Looking up a message by uuid in one file: the first line with that uuid
/// decides. An assistant turn gives its own usage (none if it has none); a
/// user turn gives the usage of the assistant turn it answers, looked up by
/// its parent uuid (none without a parent); a line of any other kind gives
/// none. Without a line carrying the uuid there is no usage.
pub proof fn uuid_lookup_first_line_decides(s: Seq<Option<TranscriptEntry>>, target: Seq<char>)
    ensures
        forall|k: int|
            0 <= k < s.len() && #[trigger] s[k] is Some && s[k]->0.uuid is Some
                && s[k]->0.uuid->0@ == target && (forall|j: int|
                0 <= j < k ==> !(#[trigger] s[j] is Some && s[j]->0.uuid is Some
                    && s[j]->0.uuid->0@ == target)) ==> usage_for_uuid(s, target) == (if s[k]->0.kind
                == EntryKind::Assistant {
                s[k]->0.usage
            } else if s[k]->0.kind == EntryKind::User && s[k]->0.parent_uuid is Some {
                assistant_usage_with_uuid_from(s, s[k]->0.parent_uuid->0@, 0)
            } else {
                None
            }),
        (forall|j: int|
            0 <= j < s.len() ==> !(#[trigger] s[j] is Some && s[j]->0.uuid is Some && s[j]->0.uuid->0@
                == target)) ==> usage_for_uuid(s, target) is None,
{
    assert forall|k: int|
        0 <= k < s.len() && #[trigger] s[k] is Some && s[k]->0.uuid is Some && s[k]->0.uuid->0@
            == target && (forall|j: int|
            0 <= j < k ==> !(#[trigger] s[j] is Some && s[j]->0.uuid is Some && s[j]->0.uuid->0@
                == target)) implies usage_for_uuid(s, target) == (if s[k]->0.kind
        == EntryKind::Assistant {
        s[k]->0.usage
    } else if s[k]->0.kind == EntryKind::User && s[k]->0.parent_uuid is Some {
        assistant_usage_with_uuid_from(s, s[k]->0.parent_uuid->0@, 0)
    } else {
        None
    }) by {
        assert forall|j: int| 0 <= j < k implies !has_uuid(#[trigger] s[j], target) by {
            assert(!(s[j] is Some && s[j]->0.uuid is Some && s[j]->0.uuid->0@ == target));
        }
        lemma_entry_with_uuid_at(s, target, 0, k);
    }
    if forall|j: int|
        0 <= j < s.len() ==> !(#[trigger] s[j] is Some && s[j]->0.uuid is Some && s[j]->0.uuid->0@
            == target) {
        assert forall|j: int| 0 <= j < s.len() implies !has_uuid(#[trigger] s[j], target) by {
            assert(!(s[j] is Some && s[j]->0.uuid is Some && s[j]->0.uuid->0@ == target));
        }
        lemma_entry_with_uuid_none(s, target, 0);
    }
}

/// The usage of the first assistant turn with usage that has uuid `target`.
pub fn find_assistant_message_by_uuid(
    lines: &Vec<Option<TranscriptEntry>>,
    target_uuid: &String,
) -> (r: Option<UsageFigures>)
    ensures
        r == assistant_usage_with_uuid_from(lines@, target_uuid@, 0),
{
    let n = lines.len();
    let mut i: usize = 0;
    while i < n
        invariant
            n == lines@.len(),
            0 <= i <= n,
            assistant_usage_with_uuid_from(lines@, target_uuid@, i as int)
                == assistant_usage_with_uuid_from(lines@, target_uuid@, 0),
        decreases n - i,
    {
        if let Some(entry) = &lines[i] {
            if let Some(uuid) = &entry.uuid {
                if *uuid == *target_uuid && entry.kind == EntryKind::Assistant {
                    if let Some(u) = entry.usage {
                        return Some(u);
                    }
                }
            }
        }
        i = i + 1;
    }
    None
}

/// The usage that the message with uuid `target_uuid` stands for in one
/// session file.
pub fn search_uuid_in_file(lines: &Vec<Option<TranscriptEntry>>, target_uuid: &String) -> (r:
    Option<UsageFigures>)
    ensures
        r == usage_for_uuid(lines@, target_uuid@),
{
    let n = lines.len();
    let mut i: usize = 0;
    while i < n
        invariant
            n == lines@.len(),
            0 <= i <= n,
            entry_with_uuid_from(lines@, target_uuid@, i as int) == entry_with_uuid_from(
                lines@,
                target_uuid@,
                0,
            ),
        decreases n - i,
    {
        if let Some(entry) = &lines[i] {
            if let Some(uuid) = &entry.uuid {
                if *uuid == *target_uuid {
                    if entry.kind == EntryKind::Assistant {
                        return entry.usage;
                    } else if entry.kind == EntryKind::User {
                        if let Some(parent) = &entry.parent_uuid {
                            return find_assistant_message_by_uuid(lines, parent);
                        }
                    }
                    return None;
                }
            }
        }
        i = i + 1;
    }
    None
}

/// The answer of the first session file, at or after position `i`, that
/// knows the message with uuid `target`.
pub open spec fn usage_in_files_from(
    files: Seq<Vec<Option<TranscriptEntry>>>,
    target: Seq<char>,
    i: int,
) -> Option<UsageFigures>
    decreases files.len() - i,
{
    if i < 0 || i >= files.len() {
        None
    } else if usage_for_uuid(files[i]@, target) is Some {
        usage_for_uuid(files[i]@, target)
    } else {
        usage_in_files_from(files, target, i + 1)
    }
}

proof fn lemma_files_at(files: Seq<Vec<Option<TranscriptEntry>>>, target: Seq<char>, i: int, k: int)
    requires
        0 <= i <= k < files.len(),
        usage_for_uuid(files[k]@, target) is Some,
        forall|j: int| i <= j < k ==> usage_for_uuid(#[trigger] files[j]@, target) is None,
    ensures
        usage_in_files_from(files, target, i) == usage_for_uuid(files[k]@, target),
    decreases k - i,
{
    if i < k {
        lemma_files_at(files, target, i + 1, k);
    }
}

proof fn lemma_files_none(files: Seq<Vec<Option<TranscriptEntry>>>, target: Seq<char>, i: int)
    requires
        0 <= i,
        forall|j: int| i <= j < files.len() ==> usage_for_uuid(#[trigger] files[j]@, target) is None,
    ensures
        usage_in_files_from(files, target, i) is None,
    decreases files.len() - i,
{
    if i < files.len() {
        lemma_files_none(files, target, i + 1);
    }
}

/// Searching the session files for a message: the first file, in the order
/// given, that knows the message answers; earlier files that do not know it
/// are passed over; when no file knows it there is no usage.
pub proof fn leaf_search_takes_first_file(files: Seq<Vec<Option<TranscriptEntry>>>, target: Seq<char>)
    ensures
        forall|k: int|
            0 <= k < files.len() && usage_for_uuid(#[trigger] files[k]@, target) is Some && (forall|
                j: int|
                0 <= j < k ==> usage_for_uuid(#[trigger] files[j]@, target) is None)
                ==> usage_in_files_from(files, target, 0) == usage_for_uuid(files[k]@, target),
        (forall|j: int| 0 <= j < files.len() ==> usage_for_uuid(#[trigger] files[j]@, target) is None)
            ==> usage_in_files_from(files, target, 0) is None,
{
    assert forall|k: int|
        0 <= k < files.len() && usage_for_uuid(#[trigger] files[k]@, target) is Some && (forall|
            j: int|
            0 <= j < k ==> usage_for_uuid(#[trigger] files[j]@, target) is None) implies usage_in_files_from(
        files,
        target,
        0,
    ) == usage_for_uuid(files[k]@, target) by {
        lemma_files_at(files, target, 0, k);
    }
    if forall|j: int| 0 <= j < files.len() ==> usage_for_uuid(#[trigger] files[j]@, target) is None {
        lemma_files_none(files, target, 0);
    }
}

/// Searches the session files of a project, in the order given, for the
/// message with uuid `leaf_uuid`; the first file that knows it answers.
pub fn find_usage_by_leaf_uuid(files: &Vec<Vec<Option<TranscriptEntry>>>, leaf_uuid: &String) -> (r:
    Option<UsageFigures>)
    ensures
        r == usage_in_files_from(files@, leaf_uuid@, 0),
{
    let n = files.len();
    let mut i: usize = 0;
    while i < n
        invariant
            n == files@.len(),
            0 <= i <= n,
            usage_in_files_from(files@, leaf_uuid@, i as int) == usage_in_files_from(
                files@,
                leaf_uuid@,
                0,
            ),
        decreases n - i,
    {
        let found = search_uuid_in_file(&files[i], leaf_uuid);
        if found.is_some() {
            return found;
        }
        i = i + 1;
    }
    None
}


/// Cache-read tokens that a line contributes (assistant turns only).
pub open spec fn cache_read_of(e: Option<TranscriptEntry>) -> nat {
    match assistant_usage(e) {
        Some(u) => u.cache_read_input_tokens as nat,
        None => 0,
    }
}

/// Input-side tokens (fresh input, cache creation and cache reads) that a
/// line contributes (assistant turns only).
pub open spec fn input_side_of(e: Option<TranscriptEntry>) -> nat {
    match assistant_usage(e) {
        Some(u) => (u.input_tokens + u.cache_creation_input_tokens
            + u.cache_read_input_tokens) as nat,
        None => 0,
    }
}

/// Cache-read tokens over the first `i` lines.
pub open spec fn cache_read_total(s: Seq<Option<TranscriptEntry>>, i: int) -> nat
    decreases i,
{
    if i <= 0 {
        0
    } else {
        cache_read_total(s, i - 1) + cache_read_of(s[i - 1])
    }
}

/// Input-side tokens over the first `i` lines.
pub open spec fn input_side_total(s: Seq<Option<TranscriptEntry>>, i: int) -> nat
    decreases i,
{
    if i <= 0 {
        0
    } else {
        input_side_total(s, i - 1) + input_side_of(s[i - 1])
    }
}

/// The session's cache figures: `(Σ cache_read, Σ (input + cache_creation +
/// cache_read))` over every assistant turn, or `None` when the sum of the
/// input side is zero.
pub open spec fn cache_totals(s: Seq<Option<TranscriptEntry>>) -> Option<(u64, u64)> {
    if input_side_total(s, s.len() as int) == 0 {
        None
    } else {
        Some(
            (
                cache_read_total(s, s.len() as int) as u64,
                input_side_total(s, s.len() as int) as u64,
            ),
        )
    }
}

/// Each turn's input side is summed in 32 bits, and the session's sum in 64.
pub open spec fn cache_sums_fit(s: Seq<Option<TranscriptEntry>>) -> bool {
    &&& forall|k: int| 0 <= k < s.len() ==> #[trigger] input_side_of(s[k]) <= u32::MAX
    &&& input_side_total(s, s.len() as int) <= u64::MAX
}

proof fn lemma_input_side_total_monotone(s: Seq<Option<TranscriptEntry>>, i: int, j: int)
    requires
        i <= j,
    ensures
        input_side_total(s, i) <= input_side_total(s, j),
    decreases j - i,
{
    if i < j {
        lemma_input_side_total_monotone(s, i, j - 1);
    }
}

/// Over any prefix of a transcript, the cache reads never exceed the input
/// side they are part of: the hit rate is at most one.
pub proof fn cache_reads_within_input_side(s: Seq<Option<TranscriptEntry>>, i: int)
    ensures
        cache_read_total(s, i) <= input_side_total(s, i),
    decreases i,
{
    if i > 0 {
        cache_reads_within_input_side(s, i - 1);
    }
}

/// The session figures are cumulative: the totals over two stretches of a
/// transcript, one after the other, are the sums of the totals over each.
pub proof fn cache_totals_add_up(s1: Seq<Option<TranscriptEntry>>, s2: Seq<Option<TranscriptEntry>>)
    ensures
        cache_read_total(s1 + s2, (s1 + s2).len() as int) == cache_read_total(s1, s1.len() as int)
            + cache_read_total(s2, s2.len() as int),
        input_side_total(s1 + s2, (s1 + s2).len() as int) == input_side_total(s1, s1.len() as int)
            + input_side_total(s2, s2.len() as int),
    decreases s2.len(),
{
    if s2.len() == 0 {
        assert(s1 + s2 =~= s1);
    } else {
        let t = s2.drop_last();
        cache_totals_add_up(s1, t);
        assert((s1 + s2).drop_last() =~= s1 + t);
        assert((s1 + s2).last() == s2.last());
        lemma_totals_prefix(s1 + s2, (s1 + s2).len() - 1);
        lemma_totals_prefix(s2, s2.len() - 1);
    }
}

proof fn lemma_totals_prefix(s: Seq<Option<TranscriptEntry>>, i: int)
    requires
        0 <= i <= s.len(),
    ensures
        cache_read_total(s, i) == cache_read_total(s.subrange(0, i), i),
        input_side_total(s, i) == input_side_total(s.subrange(0, i), i),
    decreases i,
{
    if i > 0 {
        lemma_totals_prefix(s, i - 1);
        lemma_totals_prefix(s.subrange(0, i), i - 1);
        assert(s.subrange(0, i).subrange(0, i - 1) =~= s.subrange(0, i - 1));
    }
}

proof fn lemma_totals_without(s: Seq<Option<TranscriptEntry>>, j: int)
    requires
        0 <= j < s.len(),
    ensures
        cache_read_total(s, s.len() as int) == cache_read_total(s.remove(j), s.len() - 1)
            + cache_read_of(s[j]),
        input_side_total(s, s.len() as int) == input_side_total(s.remove(j), s.len() - 1)
            + input_side_of(s[j]),
    decreases s.len(),
{
    let n = s.len() as int;
    lemma_totals_prefix(s, n - 1);
    assert(s.subrange(0, n - 1) =~= s.drop_last());
    if j == n - 1 {
        assert(s.remove(j) =~= s.drop_last());
    } else {
        let t = s.drop_last();
        lemma_totals_without(t, j);
        let r = s.remove(j);
        lemma_totals_prefix(r, n - 2);
        assert(r.subrange(0, n - 2) =~= t.remove(j));
        assert(r[n - 2] == s[n - 1]);
    }
}

/// The session figures do not depend on the order of the lines: two
/// transcripts holding the same lines, in any order, give the same totals.
pub proof fn cache_totals_ignore_line_order(
    s1: Seq<Option<TranscriptEntry>>,
    s2: Seq<Option<TranscriptEntry>>,
)
    requires
        s1.to_multiset() == s2.to_multiset(),
    ensures
        cache_read_total(s1, s1.len() as int) == cache_read_total(s2, s2.len() as int),
        input_side_total(s1, s1.len() as int) == input_side_total(s2, s2.len() as int),
        cache_totals(s1) == cache_totals(s2),
    decreases s1.len(),
{
    broadcast use vstd::seq_lib::group_to_multiset_ensures;

    assert(s1.len() == s1.to_multiset().len());
    assert(s2.len() == s2.to_multiset().len());
    if s1.len() > 0 {
        let n = s1.len() as int;
        let x = s1[n - 1];
        assert(s1.contains(x));
        assert(s1.to_multiset().count(x) > 0);
        assert(s2.contains(x));
        let j = choose|j: int| 0 <= j < s2.len() && s2[j] == x;
        assert(s1.remove(n - 1).to_multiset() =~= s1.to_multiset().remove(x));
        assert(s2.remove(j).to_multiset() =~= s2.to_multiset().remove(x));
        cache_totals_ignore_line_order(s1.remove(n - 1), s2.remove(j));
        lemma_totals_without(s1, n - 1);
        lemma_totals_without(s2, j);
    }
}

/// The session figures are known exactly when some assistant turn has input
/// tokens: then they are the two sums, whatever the cache reads come to
/// (a session with no cache hit yet has figures with zero reads).
pub proof fn cache_totals_known_iff_input(s: Seq<Option<TranscriptEntry>>)
    ensures
        input_side_total(s, s.len() as int) > 0 <==> cache_totals(s) is Some,
        input_side_total(s, s.len() as int) > 0 ==> cache_totals(s) == Some(
            (
                cache_read_total(s, s.len() as int) as u64,
                input_side_total(s, s.len() as int) as u64,
            ),
        ),
{
}

/// A transcript with a single assistant turn with usage has that turn's
/// figures as its totals: its cache reads, and its fresh input plus cache
/// creation plus cache reads.
pub proof fn cache_totals_of_one_turn(e: TranscriptEntry, u: UsageFigures)
    requires
        e.kind == EntryKind::Assistant,
        e.usage == Some(u),
    ensures
        cache_read_total(seq![Some(e)], 1) == u.cache_read_input_tokens,
        input_side_total(seq![Some(e)], 1) == u.input_tokens + u.cache_creation_input_tokens
            + u.cache_read_input_tokens,
        u.input_tokens + u.cache_creation_input_tokens + u.cache_read_input_tokens > 0
            ==> cache_totals(seq![Some(e)]) == Some(
            (
                u.cache_read_input_tokens as u64,
                (u.input_tokens + u.cache_creation_input_tokens + u.cache_read_input_tokens) as u64,
            ),
        ),
{
    let s = seq![Some(e)];
    assert(cache_read_total(s, 0) == 0);
    assert(input_side_total(s, 0) == 0);
}

/// Sums the cache reads and the input side over every assistant turn of a
/// transcript; `None` when the input side sums to zero.
pub fn accumulate_cache_in_file(lines: &Vec<Option<TranscriptEntry>>) -> (r: Option<(u64, u64)>)
    requires
        cache_sums_fit(lines@),
    ensures
        r == cache_totals(lines@),
        r matches Some((read, denom)) ==> 0 < denom && read <= denom,
        input_side_total(lines@, lines@.len() as int) > 0 ==> r == Some(
            (
                cache_read_total(lines@, lines@.len() as int) as u64,
                input_side_total(lines@, lines@.len() as int) as u64,
            ),
        ),
        input_side_total(lines@, lines@.len() as int) == 0 ==> r is None,
{
    let n = lines.len();
    let mut cache_read: u64 = 0;
    let mut denom: u64 = 0;
    let mut i: usize = 0;
    while i < n
        invariant
            n == lines@.len(),
            0 <= i <= n,
            cache_sums_fit(lines@),
            cache_read == cache_read_total(lines@, i as int),
            denom == input_side_total(lines@, i as int),
        decreases n - i,
    {
        proof {
            lemma_input_side_total_monotone(lines@, i + 1, n as int);
            cache_reads_within_input_side(lines@, i + 1);
            assert(input_side_of(lines@[i as int]) <= u32::MAX);
        }
        if let Some(entry) = &lines[i] {
            if entry.kind == EntryKind::Assistant {
                if let Some(u) = entry.usage {
                    let side: u32 = u.input_tokens + u.cache_creation_input_tokens
                        + u.cache_read_input_tokens;
                    cache_read = cache_read + u.cache_read_input_tokens as u64;
                    denom = denom + side as u64;
                }
            }
        }
        i = i + 1;
    }
    proof {
        cache_reads_within_input_side(lines@, n as int);
    }
    if denom == 0 {
        return None;
    }
    Some((cache_read, denom))
}

/// The first answer at or after position `i`.
pub open spec fn first_answer_from<T>(answers: Seq<Option<T>>, i: int) -> Option<T>
    decreases answers.len() - i,
{
    if i < 0 || i >= answers.len() {
        None
    } else if answers[i] is Some {
        answers[i]
    } else {
        first_answer_from(answers, i + 1)
    }
}

/// The answer for a transcript, with the project's history as fallback: the
/// transcript's own answer if it has one; otherwise, only when the
/// transcript's path does not exist, the first answer among the project's
/// session files in the order they are tried.
pub open spec fn answer_or_history<T>(
    own: Option<T>,
    transcript_exists: bool,
    history: Seq<Option<T>>,
) -> Option<T> {
    if own is Some {
        own
    } else if !transcript_exists {
        first_answer_from(history, 0)
    } else {
        None
    }
}

proof fn lemma_first_answer_from<T>(answers: Seq<Option<T>>, i: int, k: int)
    requires
        0 <= i <= k < answers.len(),
        answers[k] is Some,
        forall|j: int| i <= j < k ==> answers[j] is None,
    ensures
        first_answer_from(answers, i) == answers[k],
    decreases k - i,
{
    if i < k {
        lemma_first_answer_from(answers, i + 1, k);
    }
}

proof fn lemma_no_answer_from<T>(answers: Seq<Option<T>>, i: int)
    requires
        0 <= i,
        forall|j: int| i <= j < answers.len() ==> answers[j] is None,
    ensures
        first_answer_from(answers, i) is None,
    decreases answers.len() - i,
{
    if i < answers.len() {
        lemma_no_answer_from(answers, i + 1);
    }
}

/// The history fallback in terms of its inputs: the transcript's own answer
/// wins; an existing transcript without one gives none; otherwise the
/// session file tried first among those that answer gives the answer, and
/// none answers only when no session file does.
pub proof fn history_fallback_takes_first_answer<T>(
    own: Option<T>,
    transcript_exists: bool,
    history: Seq<Option<T>>,
)
    ensures
        own is Some ==> answer_or_history(own, transcript_exists, history) == own,
        own is None && transcript_exists ==> answer_or_history(own, transcript_exists, history) is None,
        own is None && !transcript_exists ==> (forall|k: int|
            0 <= k < history.len() && history[k] is Some && (forall|j: int|
                0 <= j < k ==> history[j] is None) ==> answer_or_history(
                own,
                transcript_exists,
                history,
            ) == history[k]),
        own is None && !transcript_exists ==> ((forall|k: int|
            0 <= k < history.len() ==> history[k] is None) ==> answer_or_history(
            own,
            transcript_exists,
            history,
        ) is None),
{
    assert forall|k: int|
        0 <= k < history.len() && history[k] is Some && (forall|j: int|
            0 <= j < k ==> history[j] is None) implies first_answer_from(history, 0)
        == history[k] by {
        lemma_first_answer_from(history, 0, k);
    }
    if forall|k: int| 0 <= k < history.len() ==> history[k] is None {
        lemma_no_answer_from(history, 0);
    }
}

/// Whether the project's other session files are to be consulted: only when
/// the transcript itself gave no answer and its path does not exist.
pub fn history_needed(own_found: bool, transcript_exists: bool) -> (needed: bool)
    ensures
        needed == (!own_found && !transcript_exists),
{
    !own_found && !transcript_exists
}

/// Applies the history fallback (see [`answer_or_history`]); `history[k]` is
/// the answer of the `k`-th session file in the order they are tried.
pub fn pick_with_history<T: Copy>(
    own: Option<T>,
    transcript_exists: bool,
    history: &Vec<Option<T>>,
) -> (r: Option<T>)
    ensures
        r == answer_or_history(own, transcript_exists, history@),
        own is Some ==> r == own,
        own is None && transcript_exists ==> r is None,
        own is None && !transcript_exists ==> (forall|k: int|
            0 <= k < history@.len() && history@[k] is Some && (forall|j: int|
                0 <= j < k ==> history@[j] is None) ==> r == history@[k]),
        own is None && !transcript_exists ==> ((forall|k: int|
            0 <= k < history@.len() ==> history@[k] is None) ==> r is None),
{
    proof {
        history_fallback_takes_first_answer(own, transcript_exists, history@);
    }
    if own.is_some() {
        return own;
    }
    if transcript_exists {
        return None;
    }
    let n = history.len();
    let mut i: usize = 0;
    while i < n
        invariant
            n == history@.len(),
            0 <= i <= n,
            own is None,
            !transcript_exists,
            first_answer_from(history@, i as int) == first_answer_from(history@, 0),
        decreases n - i,
    {
        let a = history[i];
        if a.is_some() {
            proof {
                history_fallback_takes_first_answer(own, transcript_exists, history@);
            }
            return a;
        }
        i = i + 1;
    }
    proof {
        history_fallback_takes_first_answer(own, transcript_exists, history@);
    }
    None
}

/// Whether session file `a` is to be tried before session file `b`: its
/// modification time is later, or the times are equal and `a` was listed
/// later.
pub open spec fn tried_before(mtimes: Seq<i128>, a: int, b: int) -> bool {
    mtimes[a] > mtimes[b] || (mtimes[a] == mtimes[b] && a > b)
}

/// The order in which the session files of a project are tried: most
/// recently modified first. The files are first sorted stably by ascending
/// modification time and the result is then reversed, so files with equal
/// times come in reverse listing order. `mtimes[k]` is the modification time
/// of the `k`-th file listed, in nanoseconds from the Unix epoch; the result
/// lists indices into `mtimes`.
pub fn recency_order(mtimes: &Vec<i128>) -> (order: Vec<usize>)
    ensures
        order@.len() == mtimes@.len(),
        forall|k: int| 0 <= k < order@.len() ==> #[trigger] order@[k] < mtimes@.len(),
        forall|k: usize| k < mtimes@.len() ==> #[trigger] order@.contains(k),
        forall|a: int, b: int|
            0 <= a < b < order@.len() ==> tried_before(
                mtimes@,
                #[trigger] order@[a] as int,
                #[trigger] order@[b] as int,
            ),
{
    let n = mtimes.len();
    let mut order: Vec<usize> = Vec::new();
    let mut i: usize = 0;
    while i < n
        invariant
            n == mtimes@.len(),
            0 <= i <= n,
            order@.len() == i,
            forall|k: int| 0 <= k < order@.len() ==> #[trigger] order@[k] < i,
            forall|k: usize| k < i ==> #[trigger] order@.contains(k),
            forall|a: int, b: int|
                0 <= a < b < order@.len() ==> tried_before(
                    mtimes@,
                    #[trigger] order@[a] as int,
                    #[trigger] order@[b] as int,
                ),
        decreases n - i,
    {
        let t = mtimes[i];
        let mut p: usize = 0;
        while p < order.len() && mtimes[order[p]] > t
            invariant
                n == mtimes@.len(),
                i < n,
                t == mtimes@[i as int],
                0 <= p <= order@.len(),
                forall|k: int| 0 <= k < order@.len() ==> #[trigger] order@[k] < i,
                forall|q: int| 0 <= q < p ==> mtimes@[#[trigger] order@[q] as int] > t,
            decreases order@.len() - p,
        {
            p = p + 1;
        }
        let ghost old_order = order@;
        proof {
            assert forall|q: int| p <= q < old_order.len() implies mtimes@[
                #[trigger] old_order[q] as int] <= t by {
                if q > p {
                    assert(tried_before(mtimes@, old_order[p as int] as int, old_order[q] as int));
                }
            }
        }
        order.insert(p, i);
        proof {
            assert(order@ == old_order.insert(p as int, i));
            assert forall|k: int| 0 <= k < order@.len() implies #[trigger] order@[k] < i + 1 by {
                if k < p {
                    assert(order@[k] == old_order[k]);
                } else if k > p {
                    assert(order@[k] == old_order[k - 1]);
                }
            }
            assert forall|k: usize| k < i + 1 implies #[trigger] order@.contains(k) by {
                if k == i {
                    assert(order@[p as int] == i);
                } else {
                    assert(old_order.contains(k));
                    let w = choose|w: int| 0 <= w < old_order.len() && old_order[w] == k;
                    if w < p {
                        assert(order@[w] == k);
                    } else {
                        assert(order@[w + 1] == k);
                    }
                }
            }
            assert forall|a: int, b: int| 0 <= a < b < order@.len() implies tried_before(
                mtimes@,
                #[trigger] order@[a] as int,
                #[trigger] order@[b] as int,
            ) by {
                if b < p {
                    assert(order@[a] == old_order[a] && order@[b] == old_order[b]);
                } else if b == p {
                    assert(order@[a] == old_order[a]);
                } else if a < p {
                    assert(order@[a] == old_order[a] && order@[b] == old_order[b - 1]);
                } else if a == p {
                    assert(order@[b] == old_order[b - 1]);
                } else {
                    assert(order@[a] == old_order[a - 1] && order@[b] == old_order[b - 1]);
                }
            }
        }
        i = i + 1;
    }
    order
}


/// The token count as displayed, where it needs no fractional part: below a
/// thousand it is the count itself, and a whole number of thousands is shown
/// as that number followed by `k`. Any other count is shown with one decimal
/// of thousands, which is left to the caller (`None`).
pub open spec fn exact_token_text(tokens: u32) -> Option<Seq<char>> {
    if tokens < 1000 {
        Some(decimal(tokens as nat))
    } else if tokens % 1000 == 0 {
        Some(decimal((tokens / 1000) as nat) + "k"@)
    } else {
        None
    }
}

/// Renders a token count where no fractional part is involved (see
/// [`exact_token_text`]).
pub fn token_count_text(tokens: u32) -> (r: Option<String>)
    ensures
        r matches Some(t) ==> exact_token_text(tokens) == Some(t@),
        r is None <==> exact_token_text(tokens) is None,
{
    if tokens < 1000 {
        let mut t = String::new();
        push_decimal(&mut t, tokens as u64);
        assert(t@ =~= decimal(tokens as nat));
        Some(t)
    } else if tokens % 1000 == 0 {
        let mut t = String::new();
        push_decimal(&mut t, (tokens / 1000) as u64);
        t.append("k");
        assert(t@ =~= decimal((tokens / 1000) as nat) + "k"@);
        Some(t)
    } else {
        None
    }
}

/// The segment's text: `{percentage} · {tokens} tokens · cache {rate}`.
pub open spec fn context_line(percentage: Seq<char>, tokens: Seq<char>, cache: Seq<char>) -> Seq<
    char,
> {
    percentage + " \u{b7} "@ + tokens + " tokens \u{b7} cache "@ + cache
}

pub open spec fn or_dash(t: Option<Seq<char>>) -> Seq<char> {
    match t {
        Some(s) => s,
        None => "-"@,
    }
}

/// Builds the segment's text. `usage_text` holds the rendered percentage
/// and token count of the latest turn, `cache_text` the rendered session
/// hit rate; whichever is unknown is shown as `-`.
pub fn context_primary(usage_text: Option<(&str, &str)>, cache_text: Option<&str>) -> (r: String)
    ensures
        r@ == context_line(
            or_dash(
                match usage_text {
                    Some(p) => Some(p.0@),
                    None => None,
                },
            ),
            or_dash(
                match usage_text {
                    Some(p) => Some(p.1@),
                    None => None,
                },
            ),
            or_dash(opt_str_view(cache_text)),
        ),
{
    let mut r = String::new();
    match usage_text {
        Some((percentage, tokens)) => {
            r.append(percentage);
            r.append(" \u{b7} ");
            r.append(tokens);
        },
        None => {
            r.append("-");
            r.append(" \u{b7} ");
            r.append("-");
        },
    }
    r.append(" tokens \u{b7} cache ");
    match cache_text {
        Some(c) => r.append(c),
        None => r.append("-"),
    }
    r
}

} // verus!
