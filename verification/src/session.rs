//! Saved conversations: identifiers, listing order and pruning.
use vstd::prelude::*;
use crate::forge::{DescendingKey, sort_desc, stable_sort_desc};
use crate::history::MessageHistory;
use crate::text::{
    concat2, digits, hex_padded, hex_string_padded, hex_value, lemma_hex_digits_len, lemma_hex_padded_value, owned, pow16,
};

verus! {

/// Where sessions are saved, under the workspace.
pub fn sessions_dir() -> (r: &'static str)
    ensures
        r@ == ".hummingbird/sessions"@,
{
    ".hummingbird/sessions"
}

/// The current time in milliseconds since the Unix epoch (std's `SystemTime`); zero when
/// the clock is before the epoch. The value depends on the clock; nothing is stated of it.
#[verifier::external_body]
pub(crate) fn unix_now() -> u64 {
    std::time::SystemTime::now().duration_since(std::time::UNIX_EPOCH).unwrap_or_default().as_millis() as u64
}

/// A session identifier: the time in 16 hexadecimal digits, then the sequence number in at
/// least 4.
pub open spec fn unique_id_spec(ts: u64, seq: u64) -> Seq<char> {
    hex_padded(ts as nat, 16) + hex_padded(seq as nat, 4)
}

/// The identifier of a session created at `ts` as the `seq`-th of its process.
pub fn unique_id(ts: u64, seq: u64) -> (r: String)
    ensures
        r@ == unique_id_spec(ts, seq),
{
    let a = hex_string_padded(ts, 16);
    let b = hex_string_padded(seq, 4);
    concat2(a.as_str(), b.as_str())
}

/// The time part of an identifier is always sixteen digits.
proof fn lemma_time_part_width(ts: u64)
    ensures
        hex_padded(ts as nat, 16).len() == 16,
{
    reveal_with_fuel(pow16, 17);
    assert(pow16(16) == 0x1_0000_0000_0000_0000);
    lemma_hex_digits_len(ts as nat, 16);
    assert(digits(ts as nat, 16).len() <= 16);
}

/// Identifiers are unique: sessions created at different times, or as different members of
/// a process's sequence, get different identifiers.
pub proof fn law_unique_ids(ts1: u64, seq1: u64, ts2: u64, seq2: u64)
    requires
        ts1 != ts2 || seq1 != seq2,
    ensures
        unique_id_spec(ts1, seq1) != unique_id_spec(ts2, seq2),
{
    lemma_time_part_width(ts1);
    lemma_time_part_width(ts2);
    lemma_hex_padded_value(ts1 as nat, 16);
    lemma_hex_padded_value(ts2 as nat, 16);
    lemma_hex_padded_value(seq1 as nat, 4);
    lemma_hex_padded_value(seq2 as nat, 4);
    let a = unique_id_spec(ts1, seq1);
    let b = unique_id_spec(ts2, seq2);
    if a == b {
        assert(a.subrange(0, 16) =~= hex_padded(ts1 as nat, 16));
        assert(b.subrange(0, 16) =~= hex_padded(ts2 as nat, 16));
        assert(a.subrange(16, a.len() as int) =~= hex_padded(seq1 as nat, 4));
        assert(b.subrange(16, b.len() as int) =~= hex_padded(seq2 as nat, 4));
        assert(hex_value(hex_padded(ts1 as nat, 16)) == hex_value(hex_padded(ts2 as nat, 16)));
        assert(hex_value(hex_padded(seq1 as nat, 4)) == hex_value(hex_padded(seq2 as nat, 4)));
    }
}

/// The sequence number `i` places after `start`, counting on from the largest number back to
/// zero.
pub open spec fn nth_seq(start: u64, i: nat) -> u64 {
    ((start + i) % 0x1_0000_0000_0000_0000) as u64
}

/// Sessions that one counter creates get different identifiers, whatever the clock says:
/// counting `i` and `j` places on from the same start, with `i` and `j` different and below
/// 2^64, gives different numbers, hence different identifiers; and one step on from `i`
/// places is `i + 1` places on.
pub proof fn law_counter_ids_unique(start: u64, i: nat, j: nat, ts_i: u64, ts_j: u64)
    requires
        i != j,
        i < 0x1_0000_0000_0000_0000,
        j < 0x1_0000_0000_0000_0000,
    ensures
        unique_id_spec(ts_i, nth_seq(start, i)) != unique_id_spec(ts_j, nth_seq(start, j)),
        nth_seq(nth_seq(start, i), 1) == nth_seq(start, i + 1),
{
    let m: int = 0x1_0000_0000_0000_0000;
    assert(nth_seq(start, i) != nth_seq(start, j)) by {
        let a = start + i;
        let b = start + j;
        assert(0 <= a < 2 * m && 0 <= b < 2 * m);
        assert(a % m == if a < m { a } else { a - m }) by (nonlinear_arith)
            requires
                0 <= a < 2 * m,
                m == 0x1_0000_0000_0000_0000int,
        ;
        assert(b % m == if b < m { b } else { b - m }) by (nonlinear_arith)
            requires
                0 <= b < 2 * m,
                m == 0x1_0000_0000_0000_0000int,
        ;
    }
    law_unique_ids(ts_i, nth_seq(start, i), ts_j, nth_seq(start, j));
    assert(nth_seq(nth_seq(start, i), 1) == nth_seq(start, i + 1)) by {
        let a = start + i;
        let x = a % m;
        assert(0 <= x < m);
        assert((x + 1) % m == (a + 1) % m) by (nonlinear_arith)
            requires
                x == a % m,
                m == 0x1_0000_0000_0000_0000int,
                a >= 0,
        ;
    }
}

/// A saved conversation.
#[derive(Debug)]
pub struct Session {
    pub id: String,
    pub created_at: u64,
    pub updated_at: u64,
    pub summary: String,
    pub history: MessageHistory,
}

/// What a listing shows of a session.
#[derive(Debug)]
pub struct SessionMeta {
    pub id: String,
    pub created_at: u64,
    pub summary: String,
    pub message_count: usize,
}

impl DescendingKey for SessionMeta {
    open spec fn spec_key(&self) -> int {
        self.created_at as int
    }

    fn sort_key(&self) -> (r: u64) {
        self.created_at
    }
}

impl Session {
    /// A new, empty session, created now, as the `seq`-th session of this process (the caller
    /// keeps the count).
    pub fn new(summary: &str, seq: u64) -> (r: Session)
        ensures
            r.created_at == r.updated_at,
            r.id@ == unique_id_spec(r.created_at, seq),
            r.summary@ == summary@,
            r.history.messages@.len() == 0,
    {
        let now = unix_now();
        Session { id: unique_id(now, seq), created_at: now, updated_at: now, summary: owned(summary), history: MessageHistory::new() }
    }

    /// The file a session is saved in, under the sessions directory.
    pub fn file_name(id: &str) -> (r: String)
        ensures
            r@ == id@ + ".json"@,
    {
        concat2(id, ".json")
    }

    /// What a listing shows of this session.
    pub fn meta(&self) -> (r: SessionMeta)
        ensures
            r.id@ == self.id@,
            r.created_at == self.created_at,
            r.summary@ == self.summary@,
            r.message_count == self.history.messages@.len(),
    {
        SessionMeta { id: self.id.clone(), created_at: self.created_at, summary: self.summary.clone(), message_count: self.history.len() }
    }

    /// Orders a listing newest first; sessions created at the same time keep their order.
    pub fn order_listing(metas: Vec<SessionMeta>) -> (r: Vec<SessionMeta>)
        ensures
            r@ == sort_desc(metas@),
    {
        stable_sort_desc(metas)
    }

    /// The creation time before which sessions are pruned: `older_than_ms` before `now`, or
    /// the epoch.
    pub fn prune_cutoff(now: u64, older_than_ms: u64) -> (r: u64)
        ensures
            r == if now >= older_than_ms { now - older_than_ms } else { 0 },
    {
        now.saturating_sub(older_than_ms)
    }

    /// Whether a session created at `created_at` is pruned at the cutoff.
    pub fn is_prunable(created_at: u64, cutoff: u64) -> (r: bool)
        ensures
            r == (created_at < cutoff),
    {
        created_at < cutoff
    }
}

/// The count of the sessions that one process creates: each creation takes the current
/// number, and the count moves on by one (from the largest number back to zero).
#[derive(Debug)]
pub struct SessionIds {
    pub next: u64,
}

impl SessionIds {
    /// A count that starts at zero.
    pub fn new() -> (r: SessionIds)
        ensures
            r.next == 0,
    {
        SessionIds { next: 0 }
    }

    /// A new, empty session, created now, numbered by this count, which then moves on.
    pub fn create(&mut self, summary: &str) -> (r: Session)
        ensures
            r.created_at == r.updated_at,
            r.id@ == unique_id_spec(r.created_at, old(self).next),
            r.summary@ == summary@,
            r.history.messages@.len() == 0,
            final(self).next == nth_seq(old(self).next, 1),
    {
        let seq = self.next;
        self.next = if seq == u64::MAX { 0 } else { seq + 1 };
        Session::new(summary, seq)
    }
}

} // verus!
