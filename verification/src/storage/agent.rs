//! The per-project agent database: where it lives, its vocabularies, and the
//! lexical matching used to rank memories and code chunks.
use vstd::prelude::*;

use super::database::{failure, joined_path, path_join, StorageError, StorageErrorKind};
use crate::codec::{sha256, sha256_of};
use crate::text::{
    append_str, chars_of, contains_chars, contains_seq, join_with_spaces, join_words,
    lowercase_of, push_char, split_words, str_is, to_lowercase, utf8_len, words,
};

verus! {

pub open spec fn hex_digit(n: u8) -> char {
    if n < 10 {
        (('0' as u8) + n) as char
    } else {
        (('a' as u8) + n - 10) as char
    }
}

/// Lowercase hexadecimal, two digits per byte.
pub open spec fn hex_of(bytes: Seq<u8>) -> Seq<char>
    decreases bytes.len(),
{
    if bytes.len() == 0 {
        Seq::empty()
    } else {
        hex_of(bytes.drop_last()) + seq![hex_digit(bytes.last() / 16), hex_digit(bytes.last() % 16)]
    }
}

fn hex_char(n: u8) -> (c: char)
    requires
        n < 16,
    ensures
        c == hex_digit(n),
{
    if n < 10 {
        (('0' as u8) + n) as char
    } else {
        (('a' as u8) + n - 10) as char
    }
}

/// Renders bytes as lowercase hexadecimal.
pub fn to_hex(bytes: &Vec<u8>) -> (hex: String)
    ensures
        hex@ == hex_of(bytes@),
{
    let mut hex = String::new();
    let mut i: usize = 0;
    while i < bytes.len()
        invariant
            i <= bytes@.len(),
            hex@ == hex_of(bytes@.take(i as int)),
        decreases bytes.len() - i,
    {
        proof {
            assert(bytes@.take(i + 1).drop_last() =~= bytes@.take(i as int));
        }
        push_char(&mut hex, hex_char(bytes[i] / 16));
        push_char(&mut hex, hex_char(bytes[i] % 16));
        i += 1;
    }
    assert(bytes@.take(bytes@.len() as int) =~= bytes@);
    hex
}

/// One database per project, under a shared directory.
pub struct TursoAgentDatabase {
    projects_directory: String,
}

/// The database file for a project: `<projects>/<sha256 of the root, in hex>/agent.db`.
pub open spec fn database_path_spec(projects: Seq<char>, project_root: Seq<char>) -> Seq<char> {
    joined_path(
        joined_path(projects, hex_of(sha256_of(vstd::utf8::encode_utf8(project_root)))),
        "agent.db"@,
    )
}

impl TursoAgentDatabase {
    pub closed spec fn projects_view(self) -> Seq<char> {
        self.projects_directory@
    }

    /// Agent databases kept under `projects_directory`.
    pub fn new(projects_directory: String) -> (db: Self)
        ensures
            db.projects_view() == projects_directory@,
    {
        TursoAgentDatabase { projects_directory }
    }

    /// The database file that belongs to `project_root`.
    pub fn database_path(&self, project_root: &str) -> (path: String)
        ensures
            path@ == database_path_spec(self.projects_view(), project_root@),
    {
        let digest = sha256(project_root.as_bytes());
        let key = to_hex(&digest);
        let directory = path_join(self.projects_directory.as_str(), key.as_str());
        path_join(directory.as_str(), "agent.db")
    }
}

/// What an agent memory records.
#[derive(Clone, Copy, Debug, PartialEq, Eq, Structural)]
pub enum MemoryKind {
    Fact,
    Preference,
    Decision,
    Procedure,
}

/// Where an agent memory is in review.
#[derive(Clone, Copy, Debug, PartialEq, Eq, Structural)]
pub enum MemoryState {
    Candidate,
    Active,
    Rejected,
}

/// The lifecycle of an agent session.
#[derive(Clone, Copy, Debug, PartialEq, Eq, Structural)]
pub enum AgentSessionState {
    Running,
    AwaitingReview,
    Applied,
    Discarded,
    Failed,
}

pub open spec fn memory_kind_name(k: MemoryKind) -> Seq<char> {
    match k {
        MemoryKind::Fact => "fact"@,
        MemoryKind::Preference => "preference"@,
        MemoryKind::Decision => "decision"@,
        MemoryKind::Procedure => "procedure"@,
    }
}

pub open spec fn memory_state_name(s: MemoryState) -> Seq<char> {
    match s {
        MemoryState::Candidate => "candidate"@,
        MemoryState::Active => "active"@,
        MemoryState::Rejected => "rejected"@,
    }
}

pub open spec fn session_state_name(s: AgentSessionState) -> Seq<char> {
    match s {
        AgentSessionState::Running => "running"@,
        AgentSessionState::AwaitingReview => "awaiting-review"@,
        AgentSessionState::Applied => "applied"@,
        AgentSessionState::Discarded => "discarded"@,
        AgentSessionState::Failed => "failed"@,
    }
}

/// The stored name of a memory kind.
pub fn memory_kind(k: MemoryKind) -> (name: &'static str)
    ensures
        name@ == memory_kind_name(k),
{
    match k {
        MemoryKind::Fact => "fact",
        MemoryKind::Preference => "preference",
        MemoryKind::Decision => "decision",
        MemoryKind::Procedure => "procedure",
    }
}

/// The stored name of a memory state.
pub fn memory_state(s: MemoryState) -> (name: &'static str)
    ensures
        name@ == memory_state_name(s),
{
    match s {
        MemoryState::Candidate => "candidate",
        MemoryState::Active => "active",
        MemoryState::Rejected => "rejected",
    }
}

/// The stored name of a session state.
pub fn session_state(s: AgentSessionState) -> (name: &'static str)
    ensures
        name@ == session_state_name(s),
{
    match s {
        AgentSessionState::Running => "running",
        AgentSessionState::AwaitingReview => "awaiting-review",
        AgentSessionState::Applied => "applied",
        AgentSessionState::Discarded => "discarded",
        AgentSessionState::Failed => "failed",
    }
}

/// Reads a stored memory kind; unknown names are invalid data.
pub fn parse_memory_kind(value: &str) -> (r: Result<MemoryKind, StorageError>)
    ensures
        match r {
            Ok(k) => memory_kind_name(k) == value@,
            Err(e) => e.kind == StorageErrorKind::InvalidData && forall|k: MemoryKind| memory_kind_name(k) != value@,
        },
{
    if str_is(value, "fact") {
        Ok(MemoryKind::Fact)
    } else if str_is(value, "preference") {
        Ok(MemoryKind::Preference)
    } else if str_is(value, "decision") {
        Ok(MemoryKind::Decision)
    } else if str_is(value, "procedure") {
        Ok(MemoryKind::Procedure)
    } else {
        Err(failure(StorageErrorKind::InvalidData, "unknown memory kind"))
    }
}

/// Reads a stored memory state; unknown names are invalid data.
pub fn parse_memory_state(value: &str) -> (r: Result<MemoryState, StorageError>)
    ensures
        match r {
            Ok(s) => memory_state_name(s) == value@,
            Err(e) => e.kind == StorageErrorKind::InvalidData && forall|s: MemoryState| memory_state_name(s) != value@,
        },
{
    if str_is(value, "candidate") {
        Ok(MemoryState::Candidate)
    } else if str_is(value, "active") {
        Ok(MemoryState::Active)
    } else if str_is(value, "rejected") {
        Ok(MemoryState::Rejected)
    } else {
        Err(failure(StorageErrorKind::InvalidData, "unknown memory state"))
    }
}

/// Reads a stored session state; unknown names are invalid data.
pub fn parse_session_state(value: &str) -> (r: Result<AgentSessionState, StorageError>)
    ensures
        match r {
            Ok(s) => session_state_name(s) == value@,
            Err(e) => e.kind == StorageErrorKind::InvalidData && forall|s: AgentSessionState| session_state_name(s) != value@,
        },
{
    if str_is(value, "running") {
        Ok(AgentSessionState::Running)
    } else if str_is(value, "awaiting-review") {
        Ok(AgentSessionState::AwaitingReview)
    } else if str_is(value, "applied") {
        Ok(AgentSessionState::Applied)
    } else if str_is(value, "discarded") {
        Ok(AgentSessionState::Discarded)
    } else if str_is(value, "failed") {
        Ok(AgentSessionState::Failed)
    } else {
        Err(failure(StorageErrorKind::InvalidData, "unknown agent session state"))
    }
}

/// Text folded for matching: words joined by single spaces, then lowercased.
pub open spec fn normalize_spec(value: Seq<char>) -> Seq<char> {
    lowercase_of(join_words(words(value)))
}

/// Folds text for matching.
pub fn normalize(value: &str) -> (normalized: String)
    ensures
        normalized@ == normalize_spec(value@),
{
    let ws = split_words(value);
    let joined = join_with_spaces(&ws);
    to_lowercase(joined.as_str())
}

/// The search terms of a query: the words of its folded text longer than one byte.
pub open spec fn terms_spec(value: Seq<char>) -> Seq<Seq<char>> {
    long_words(words(normalize_spec(value)))
}

/// The words longer than one byte, in order.
pub open spec fn long_words(ws: Seq<Seq<char>>) -> Seq<Seq<char>>
    decreases ws.len(),
{
    if ws.len() == 0 {
        Seq::empty()
    } else if utf8_len(ws.last()) > 1 {
        long_words(ws.drop_last()).push(ws.last())
    } else {
        long_words(ws.drop_last())
    }
}

/// Splits a query into search terms.
pub fn terms(value: &str) -> (ts: Vec<String>)
    ensures
        ts@.map_values(|t: String| t@) == terms_spec(value@),
{
    let normalized = normalize(value);
    let ws = split_words(normalized.as_str());
    let ghost all = ws@.map_values(|w: String| w@);
    let mut ts: Vec<String> = Vec::new();
    let mut i: usize = 0;
    while i < ws.len()
        invariant
            i <= ws@.len(),
            all == ws@.map_values(|w: String| w@),
            all == words(normalize_spec(value@)),
            ts@.map_values(|t: String| t@) == long_words(all.take(i as int)),
        decreases ws.len() - i,
    {
        proof {
            assert(all.take(i + 1).drop_last() =~= all.take(i as int));
        }
        let len = crate::text::byte_len(ws[i].as_str());
        assert(all[i as int] == ws@[i as int]@);
        proof {
            assert(all.take(i + 1).last() == ws@[i as int]@);
        }
        assert(len == utf8_len(all[i as int]));
        assert(long_words(all.take(i + 1)) == if utf8_len(all[i as int]) > 1 {
            long_words(all.take(i as int)).push(all[i as int])
        } else {
            long_words(all.take(i as int))
        });
        if len > 1 {
            let ghost before = ts@;
            ts.push(ws[i].clone());
            assert(ts@.map_values(|t: String| t@) =~= before.map_values(|t: String| t@).push(ws@[i as int]@));
        }
        i += 1;
    }
    assert(all.take(ws@.len() as int) =~= all);
    ts
}

/// How many terms occur in `content`.
pub open spec fn hits_spec(terms: Seq<Seq<char>>, content: Seq<char>) -> nat
    decreases terms.len(),
{
    if terms.len() == 0 {
        0
    } else {
        hits_spec(terms.drop_last(), content) + if contains_seq(content, terms.last()) { 1nat } else { 0nat }
    }
}

/// How many of the terms occur in `content`; the lexical score is this count over
/// the number of terms.
pub fn lexical_hits(terms: &Vec<String>, content: &str) -> (hits: usize)
    ensures
        hits == hits_spec(terms@.map_values(|t: String| t@), content@),
        hits <= terms@.len(),
{
    let hay = chars_of(content);
    let ghost views = terms@.map_values(|t: String| t@);
    let mut hits: usize = 0;
    let mut i: usize = 0;
    while i < terms.len()
        invariant
            i <= terms@.len(),
            hay@ == content@,
            views == terms@.map_values(|t: String| t@),
            hits == hits_spec(views.take(i as int), content@),
            hits <= i,
        decreases terms.len() - i,
    {
        proof {
            assert(views.take(i + 1).drop_last() =~= views.take(i as int));
            assert(views.take(i + 1).last() == terms@[i as int]@);
        }
        let needle = chars_of(terms[i].as_str());
        if contains_chars(&hay, &needle) {
            hits += 1;
        }
        i += 1;
    }
    assert(views.take(terms@.len() as int) =~= views);
    hits
}

/// The most bytes the content cache keeps before it evicts.
pub const MAX_CACHE_BYTES: i64 = 268435456;

/// How many versions of one path the content cache keeps.
pub const MAX_CACHE_VERSIONS_PER_PATH: i64 = 3;

/// A memory to remember needs content that is not blank.
pub fn check_memory(content: &str) -> (r: Result<(), StorageError>)
    ensures
        crate::text::is_blank(content@) ==> (r matches Err(e) && e.kind == StorageErrorKind::InvalidData
            && e.message@ == "memory is empty"@),
        !crate::text::is_blank(content@) ==> r is Ok,
{
    if crate::text::trim_is_empty(content) {
        Err(failure(StorageErrorKind::InvalidData, "memory is empty"))
    } else {
        Ok(())
    }
}

/// Reviewing a memory changes one row; none changed means it does not exist.
pub fn review_outcome(changed: u64) -> (r: Result<(), StorageError>)
    ensures
        changed == 0 ==> (r matches Err(e) && e.kind == StorageErrorKind::NotFound
            && e.message@ == "memory does not exist"@),
        changed != 0 ==> r is Ok,
{
    if changed == 0 {
        Err(failure(StorageErrorKind::NotFound, "memory does not exist"))
    } else {
        Ok(())
    }
}

/// Whether the content cache must evict its least recently used entries.
pub fn cache_over_budget(total_bytes: i64) -> (over: bool)
    ensures
        over == (total_bytes > MAX_CACHE_BYTES),
{
    total_bytes > MAX_CACHE_BYTES
}

} // verus!
