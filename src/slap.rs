//! The moderation ledger: one entry ("slap") per warning, keyed by the
//! message it is attached to.
//!
//! A slap is issued either by a member with the manager privilege or by a
//! community vote. The store keeps the enforcer as a nullable user: null
//! stands for the community.
use vstd::prelude::*;

use crate::ids::{GuildId, MessageId, UserId};
use crate::{AdapterError, StoreError};

verus! {

/// Who issued a slap.
#[derive(Clone, Copy, Debug, PartialEq, Eq, Structural)]
pub enum Enforcer {
    /// The verdict came from a community vote.
    Community,
    /// A manager issued the slap.
    Manager(UserId),
}

/// The enforcer that a stored (nullable) user stands for.
pub open spec fn enforcer_of(stored: Option<UserId>) -> Enforcer {
    match stored {
        Some(user) => Enforcer::Manager(user),
        None => Enforcer::Community,
    }
}

/// The nullable user that the store keeps for an enforcer.
pub open spec fn stored_enforcer(enforcer: Enforcer) -> Option<UserId> {
    match enforcer {
        Enforcer::Manager(user) => Some(user),
        Enforcer::Community => None,
    }
}

impl From<Option<u64>> for Enforcer {
    fn from(option: Option<u64>) -> (r: Enforcer)
        ensures
            r == enforcer_of(
                match option {
                    Some(id) => Some(UserId(id)),
                    None => None,
                },
            ),
    {
        match option {
            Some(id) => Enforcer::Manager(UserId(id)),
            None => Enforcer::Community,
        }
    }
}

impl vstd::std_specs::convert::FromSpecImpl<Option<u64>> for Enforcer {
    open spec fn obeys_from_spec() -> bool {
        true
    }

    open spec fn from_spec(option: Option<u64>) -> Enforcer {
        match option {
            Some(id) => Enforcer::Manager(UserId(id)),
            None => Enforcer::Community,
        }
    }
}

/// The enforcer that a stored (nullable) user stands for.
pub fn option_to_enforcer(option: Option<UserId>) -> (r: Enforcer)
    ensures
        r == enforcer_of(option),
{
    match option {
        Some(user) => Enforcer::Manager(user),
        None => Enforcer::Community,
    }
}

/// The nullable user that the store keeps for an enforcer.
pub fn enforcer_to_option(enforcer: Enforcer) -> (r: Option<UserId>)
    ensures
        r == stored_enforcer(enforcer),
{
    match enforcer {
        Enforcer::Manager(user) => Some(user),
        Enforcer::Community => None,
    }
}

/// One slap, as callers see it.
#[derive(Debug, PartialEq, Eq)]
pub struct SlapReport {
    /// The message the slap is attached to: for a community vote, the
    /// message that members reacted to; for a manager, the command message.
    pub sentence: MessageId,
    /// The slapped user.
    pub offender: UserId,
    /// Who issued the slap.
    pub enforcer: Enforcer,
    /// Why; `None` for a community vote or when no reason was given.
    pub reason: Option<String>,
}

/// One ledger row, as the store holds it.
#[derive(Debug)]
pub struct SlapRow {
    pub sentence: MessageId,
    pub guild: GuildId,
    pub offender: UserId,
    /// The manager who issued the slap; `None` for a community vote.
    pub enforcer: Option<UserId>,
    pub reason: Option<String>,
}

/// The report that a row stands for.
pub open spec fn report_of(row: SlapRow) -> SlapReport {
    SlapReport {
        sentence: row.sentence,
        offender: row.offender,
        enforcer: enforcer_of(row.enforcer),
        reason: row.reason,
    }
}

/// The row that recording a slap adds.
pub open spec fn recorded_row(
    guild: GuildId,
    offender: UserId,
    sentence: MessageId,
    enforcer: Enforcer,
    reason: Option<String>,
) -> SlapRow {
    SlapRow { sentence, guild, offender, enforcer: stored_enforcer(enforcer), reason }
}

/// The report of the row attached to `sentence`, if there is one.
pub open spec fn lookup(rows: Seq<SlapRow>, sentence: MessageId) -> Option<SlapReport>
    decreases rows.len(),
{
    if rows.len() == 0 {
        None
    } else if rows.last().sentence == sentence {
        Some(report_of(rows.last()))
    } else {
        lookup(rows.drop_last(), sentence)
    }
}

/// No two rows are attached to the same message.
pub open spec fn sentences_unique(rows: Seq<SlapRow>) -> bool {
    forall|i: int, j: int|
        0 <= i < j < rows.len() ==> #[trigger] rows[i].sentence != #[trigger] rows[j].sentence
}

/// Whether a row belongs to a community.
pub open spec fn of_guild(guild: GuildId) -> spec_fn(SlapRow) -> bool {
    |row: SlapRow| row.guild == guild
}

/// Whether a row is about one member of a community.
pub open spec fn of_member(guild: GuildId, offender: UserId) -> spec_fn(SlapRow) -> bool {
    |row: SlapRow| row.guild == guild && row.offender == offender
}

/// The reports of the rows that `keep` selects, in the table's order.
pub open spec fn reports_where(rows: Seq<SlapRow>, keep: spec_fn(SlapRow) -> bool) -> Seq<
    SlapReport,
> {
    rows.filter(keep).map_values(|row: SlapRow| report_of(row))
}

/// The reports of a community's rows, in the table's order.
pub open spec fn guild_reports(rows: Seq<SlapRow>, guild: GuildId) -> Seq<SlapReport> {
    reports_where(rows, of_guild(guild))
}

/// The reports of one member's rows in a community, in the table's order.
pub open spec fn member_reports(rows: Seq<SlapRow>, guild: GuildId, offender: UserId) -> Seq<
    SlapReport,
> {
    reports_where(rows, of_member(guild, offender))
}

/// One more row adds its report at the end exactly when `keep` selects it.
pub proof fn lemma_reports_push(rows: Seq<SlapRow>, row: SlapRow, keep: spec_fn(SlapRow) -> bool)
    ensures
        reports_where(rows.push(row), keep) == if keep(row) {
            reports_where(rows, keep).push(report_of(row))
        } else {
            reports_where(rows, keep)
        },
{
    rows.lemma_filter_push(row, keep);
    rows.filter(keep).lemma_push_map_commute(|r: SlapRow| report_of(r), row);
}

/// The members of a community with at least one row, each once, in the
/// order of their first row.
pub open spec fn offenders_of(rows: Seq<SlapRow>, guild: GuildId) -> Seq<UserId>
    decreases rows.len(),
{
    if rows.len() == 0 {
        Seq::empty()
    } else {
        let before = offenders_of(rows.drop_last(), guild);
        if rows.last().guild == guild && !before.contains(rows.last().offender) {
            before.push(rows.last().offender)
        } else {
            before
        }
    }
}

/// The ledger: its rows in the order they were added.
pub struct SlapTable {
    rows: Vec<SlapRow>,
}

impl View for SlapTable {
    type V = Seq<SlapRow>;

    closed spec fn view(&self) -> Seq<SlapRow> {
        self.rows@
    }
}

impl SlapTable {
    /// The ledger's rule: at most one row per message.
    #[verifier::type_invariant]
    spec fn inv(&self) -> bool {
        sentences_unique(self.rows@)
    }
}

/// A copy of an optional text.
fn copy_reason(reason: &Option<String>) -> (r: Option<String>)
    ensures
        r == *reason,
{
    match reason {
        Some(text) => Some(text.clone()),
        None => None,
    }
}

impl SlapRow {
    /// The report that the row stands for: the nullable enforcer is read
    /// back as [`Enforcer`].
    pub fn report(&self) -> (r: SlapReport)
        ensures
            r == report_of(*self),
    {
        SlapReport {
            sentence: self.sentence,
            offender: self.offender,
            enforcer: option_to_enforcer(self.enforcer),
            reason: copy_reason(&self.reason),
        }
    }
}

impl SlapTable {
    /// An empty ledger.
    pub fn new() -> (r: SlapTable)
        ensures
            r@ == Seq::<SlapRow>::empty(),
    {
        SlapTable { rows: Vec::new() }
    }

    /// Adds a row at the end. The ledger is keyed by message: when a row is
    /// attached to the same message already, the store refuses the row with a
    /// key violation ([`AdapterError::Store`]) and nothing changes.
    pub fn insert_row(&mut self, row: SlapRow) -> (r: Result<(), AdapterError>)
        ensures
            lookup(old(self)@, row.sentence) is Some ==> r == Err::<(), AdapterError>(
                AdapterError::Store(StoreError::KeyViolation(row.sentence.0)),
            ) && final(self)@ == old(self)@,
            lookup(old(self)@, row.sentence) is None ==> r is Ok && final(self)@ == old(self)@.push(
                row,
            ),
    {
        if SlapReport::get(self, row.sentence).is_some() {
            return Err(AdapterError::Store(StoreError::KeyViolation(row.sentence.0)));
        }
        proof {
            use_type_invariant(&*self);
            lemma_record_keeps_unique(self@, row);
        }
        let mut rows: Vec<SlapRow> = Vec::new();
        core::mem::swap(&mut self.rows, &mut rows);
        rows.push(row);
        core::mem::swap(&mut self.rows, &mut rows);
        Ok(())
    }
}

impl SlapReport {
    /// The slap attached to `sentence`, if there is one.
    pub fn get(conn: &SlapTable, sentence: MessageId) -> (r: Option<SlapReport>)
        ensures
            r == lookup(conn@, sentence),
            sentences_unique(conn@),
            r is None <==> forall|i: int|
                0 <= i < conn@.len() ==> #[trigger] conn@[i].sentence != sentence,
            forall|i: int|
                0 <= i < conn@.len() && #[trigger] conn@[i].sentence == sentence ==> r == Some(
                    report_of(conn@[i]),
                ),
    {
        proof {
            use_type_invariant(conn);
            assert forall|i: int|
                0 <= i < conn@.len() && #[trigger] conn@[i].sentence == sentence implies lookup(
                conn@,
                sentence,
            ) == Some(report_of(conn@[i])) by {
                lemma_lookup_unique(conn@, i);
            }
            if lookup(conn@, sentence) is None {
                lemma_lookup_none(conn@, sentence);
            }
        }
        let rows = &conn.rows;
        let mut i: usize = rows.len();
        assert(rows@.take(i as int) =~= rows@);
        while i > 0
            invariant
                i <= rows@.len(),
                rows@ == conn@,
                sentences_unique(conn@),
                forall|j: int|
                    0 <= j < conn@.len() && #[trigger] conn@[j].sentence == sentence ==> lookup(
                        conn@,
                        sentence,
                    ) == Some(report_of(conn@[j])),
                lookup(rows@, sentence) == lookup(rows@.take(i as int), sentence),
            decreases i,
        {
            let prefix = Ghost(rows@.take(i as int));
            assert(prefix@.drop_last() =~= rows@.take(i - 1));
            assert(prefix@.last() == rows@[i - 1]);
            if rows[i - 1].sentence == sentence {
                return Some(rows[i - 1].report());
            }
            i = i - 1;
        }
        None
    }
}

/// Records a row built from the slap's parts.
fn insert_raw_slap(
    conn: &mut SlapTable,
    sentence: MessageId,
    guild: GuildId,
    offender: UserId,
    enforcer: Enforcer,
    reason: Option<String>,
) -> (r: Result<(), AdapterError>)
    ensures
        lookup(old(conn)@, sentence) is Some ==> r == Err::<(), AdapterError>(
            AdapterError::Store(StoreError::KeyViolation(sentence.0)),
        ) && final(conn)@ == old(conn)@,
        lookup(old(conn)@, sentence) is None ==> r is Ok && final(conn)@ == old(conn)@.push(
            recorded_row(guild, offender, sentence, enforcer, reason),
        ),
{
    conn.insert_row(
        SlapRow { sentence, guild, offender, enforcer: enforcer_to_option(enforcer), reason },
    )
}

/// The slap record of one member of a community.
#[derive(Clone, Copy, Debug, PartialEq, Eq, Structural)]
pub struct MemberSlapRecord(pub GuildId, pub UserId);

impl MemberSlapRecord {
    /// Records a slap of this member, attached to `sentence`. When that
    /// message has a slap, the store refuses it with a key violation
    /// ([`AdapterError::Store`]) and nothing changes.
    pub fn new_slap(
        &self,
        conn: &mut SlapTable,
        sentence: MessageId,
        enforcer: Enforcer,
        reason: Option<String>,
    ) -> (r: Result<SlapReport, AdapterError>)
        ensures
            lookup(old(conn)@, sentence) is Some ==> r == Err::<SlapReport, AdapterError>(
                AdapterError::Store(StoreError::KeyViolation(sentence.0)),
            ) && final(conn)@ == old(conn)@,
            lookup(old(conn)@, sentence) is None ==> r == Ok::<SlapReport, AdapterError>(
                SlapReport { sentence, offender: self.1, enforcer, reason },
            ) && final(conn)@ == old(conn)@.push(
                recorded_row(self.0, self.1, sentence, enforcer, reason),
            ),
    {
        let stored = copy_reason(&reason);
        match insert_raw_slap(conn, sentence, self.0, self.1, enforcer, stored) {
            Ok(()) => Ok(SlapReport { sentence, offender: self.1, enforcer, reason }),
            Err(e) => Err(e),
        }
    }

    /// The member's slaps, in the ledger's order.
    pub fn slaps(&self, conn: &SlapTable) -> (r: Vec<SlapReport>)
        ensures
            r@ == member_reports(conn@, self.0, self.1),
    {
        let rows = &conn.rows;
        let mut out: Vec<SlapReport> = Vec::new();
        let mut i: usize = 0;
        proof {
            reveal(Seq::filter);
        }
        while i < rows.len()
            invariant
                i <= rows@.len(),
                out@ == member_reports(rows@.take(i as int), self.0, self.1),
            decreases rows@.len() - i,
        {
            proof {
                assert(rows@.take(i + 1) =~= rows@.take(i as int).push(rows@[i as int]));
                lemma_reports_push(rows@.take(i as int), rows@[i as int], of_member(self.0, self.1));
            }
            if rows[i].guild == self.0 && rows[i].offender == self.1 {
                out.push(rows[i].report());
            }
            i = i + 1;
        }
        assert(rows@.take(rows@.len() as int) =~= rows@);
        out
    }

    /// The number of the member's slaps.
    pub fn len(&self, conn: &SlapTable) -> (r: usize)
        ensures
            r == member_reports(conn@, self.0, self.1).len(),
    {
        let rows = &conn.rows;
        let mut count: usize = 0;
        let mut i: usize = 0;
        proof {
            reveal(Seq::filter);
        }
        while i < rows.len()
            invariant
                i <= rows@.len(),
                count <= i,
                count == member_reports(rows@.take(i as int), self.0, self.1).len(),
            decreases rows@.len() - i,
        {
            proof {
                assert(rows@.take(i + 1) =~= rows@.take(i as int).push(rows@[i as int]));
                lemma_reports_push(rows@.take(i as int), rows@[i as int], of_member(self.0, self.1));
            }
            if rows[i].guild == self.0 && rows[i].offender == self.1 {
                count = count + 1;
            }
            i = i + 1;
        }
        assert(rows@.take(rows@.len() as int) =~= rows@);
        count
    }
}

impl From<(GuildId, UserId)> for MemberSlapRecord {
    fn from(src: (GuildId, UserId)) -> (r: MemberSlapRecord)
        ensures
            r == MemberSlapRecord(src.0, src.1),
    {
        MemberSlapRecord(src.0, src.1)
    }
}

impl vstd::std_specs::convert::FromSpecImpl<(GuildId, UserId)> for MemberSlapRecord {
    open spec fn obeys_from_spec() -> bool {
        true
    }

    open spec fn from_spec(src: (GuildId, UserId)) -> MemberSlapRecord {
        MemberSlapRecord(src.0, src.1)
    }
}

/// The slap record of a whole community.
#[derive(Clone, Copy, Debug, PartialEq, Eq, Structural)]
pub struct GuildSlapRecord(pub GuildId);

impl From<(GuildSlapRecord, UserId)> for MemberSlapRecord {
    fn from(src: (GuildSlapRecord, UserId)) -> (r: MemberSlapRecord)
        ensures
            r == MemberSlapRecord(src.0.0, src.1),
    {
        MemberSlapRecord(src.0.0, src.1)
    }
}

impl vstd::std_specs::convert::FromSpecImpl<(GuildSlapRecord, UserId)> for MemberSlapRecord {
    open spec fn obeys_from_spec() -> bool {
        true
    }

    open spec fn from_spec(src: (GuildSlapRecord, UserId)) -> MemberSlapRecord {
        MemberSlapRecord(src.0.0, src.1)
    }
}

impl From<GuildId> for GuildSlapRecord {
    fn from(src: GuildId) -> (r: GuildSlapRecord)
        ensures
            r == GuildSlapRecord(src),
    {
        GuildSlapRecord(src)
    }
}

impl vstd::std_specs::convert::FromSpecImpl<GuildId> for GuildSlapRecord {
    open spec fn obeys_from_spec() -> bool {
        true
    }

    open spec fn from_spec(src: GuildId) -> GuildSlapRecord {
        GuildSlapRecord(src)
    }
}

impl GuildSlapRecord {
    /// Records a slap of `offender` in this community, attached to
    /// `sentence`. When that message has a slap, the store refuses it with a
    /// key violation ([`AdapterError::Store`]) and nothing changes.
    pub fn new_slap(
        &self,
        conn: &mut SlapTable,
        sentence: MessageId,
        offender: UserId,
        enforcer: Enforcer,
        reason: Option<String>,
    ) -> (r: Result<SlapReport, AdapterError>)
        ensures
            lookup(old(conn)@, sentence) is Some ==> r == Err::<SlapReport, AdapterError>(
                AdapterError::Store(StoreError::KeyViolation(sentence.0)),
            ) && final(conn)@ == old(conn)@,
            lookup(old(conn)@, sentence) is None ==> r == Ok::<SlapReport, AdapterError>(
                SlapReport { sentence, offender, enforcer, reason },
            ) && final(conn)@ == old(conn)@.push(
                recorded_row(self.0, offender, sentence, enforcer, reason),
            ),
    {
        let stored = copy_reason(&reason);
        match insert_raw_slap(conn, sentence, self.0, offender, enforcer, stored) {
            Ok(()) => Ok(SlapReport { sentence, offender, enforcer, reason }),
            Err(e) => Err(e),
        }
    }

    /// The number of slaps in the community.
    pub fn len(&self, conn: &SlapTable) -> (r: usize)
        ensures
            r == guild_reports(conn@, self.0).len(),
    {
        let rows = &conn.rows;
        let mut count: usize = 0;
        let mut i: usize = 0;
        proof {
            reveal(Seq::filter);
        }
        while i < rows.len()
            invariant
                i <= rows@.len(),
                count <= i,
                count == guild_reports(rows@.take(i as int), self.0).len(),
            decreases rows@.len() - i,
        {
            proof {
                assert(rows@.take(i + 1) =~= rows@.take(i as int).push(rows@[i as int]));
                lemma_reports_push(rows@.take(i as int), rows@[i as int], of_guild(self.0));
            }
            if rows[i].guild == self.0 {
                count = count + 1;
            }
            i = i + 1;
        }
        assert(rows@.take(rows@.len() as int) =~= rows@);
        count
    }

    /// The community's slaps, in the ledger's order.
    pub fn slaps(&self, conn: &SlapTable) -> (r: Vec<SlapReport>)
        ensures
            r@ == guild_reports(conn@, self.0),
    {
        let rows = &conn.rows;
        let mut out: Vec<SlapReport> = Vec::new();
        let mut i: usize = 0;
        proof {
            reveal(Seq::filter);
        }
        while i < rows.len()
            invariant
                i <= rows@.len(),
                out@ == guild_reports(rows@.take(i as int), self.0),
            decreases rows@.len() - i,
        {
            proof {
                assert(rows@.take(i + 1) =~= rows@.take(i as int).push(rows@[i as int]));
                lemma_reports_push(rows@.take(i as int), rows@[i as int], of_guild(self.0));
            }
            if rows[i].guild == self.0 {
                out.push(rows[i].report());
            }
            i = i + 1;
        }
        assert(rows@.take(rows@.len() as int) =~= rows@);
        out
    }

    /// The members of the community with at least one slap, each once, in
    /// the order of their first slap.
    pub fn offenders(&self, conn: &SlapTable) -> (r: Vec<MemberSlapRecord>)
        ensures
            r@ == offenders_of(conn@, self.0).map_values(|u: UserId| MemberSlapRecord(self.0, u)),
    {
        let users = distinct_offenders(&conn.rows, self.0);
        let mut out: Vec<MemberSlapRecord> = Vec::new();
        let mut i: usize = 0;
        while i < users.len()
            invariant
                i <= users@.len(),
                out@ == users@.take(i as int).map_values(|u: UserId| MemberSlapRecord(self.0, u)),
            decreases users@.len() - i,
        {
            out.push(MemberSlapRecord(self.0, users[i]));
            assert(out@ =~= users@.take(i + 1).map_values(|u: UserId| MemberSlapRecord(self.0, u)));
            i = i + 1;
        }
        assert(users@.take(users@.len() as int) =~= users@);
        out
    }

    /// The number of members of the community with at least one slap.
    pub fn offender_count(&self, conn: &SlapTable) -> (r: usize)
        ensures
            r == offenders_of(conn@, self.0).len(),
    {
        distinct_offenders(&conn.rows, self.0).len()
    }
}

/// Whether `users` holds `user`.
fn contains_user(users: &Vec<UserId>, user: UserId) -> (r: bool)
    ensures
        r == users@.contains(user),
{
    let mut i: usize = 0;
    while i < users.len()
        invariant
            i <= users@.len(),
            forall|j: int| 0 <= j < i ==> users@[j] != user,
        decreases users@.len() - i,
    {
        if users[i] == user {
            assert(users@[i as int] == user);
            return true;
        }
        i = i + 1;
    }
    false
}

/// The members of a community with at least one row, each once.
fn distinct_offenders(rows: &Vec<SlapRow>, guild: GuildId) -> (r: Vec<UserId>)
    ensures
        r@ == offenders_of(rows@, guild),
{
    let mut out: Vec<UserId> = Vec::new();
    let mut i: usize = 0;
    while i < rows.len()
        invariant
            i <= rows@.len(),
            out@ == offenders_of(rows@.take(i as int), guild),
        decreases rows@.len() - i,
    {
        assert(rows@.take(i + 1).drop_last() =~= rows@.take(i as int));
        if rows[i].guild == guild && !contains_user(&out, rows[i].offender) {
            out.push(rows[i].offender);
        }
        i = i + 1;
    }
    assert(rows@.take(rows@.len() as int) =~= rows@);
    out
}


/// The enforcer survives the store's nullable form both ways: a community
/// vote is stored as null and a null is read as a community vote.
pub proof fn lemma_enforcer_round_trip(enforcer: Enforcer, stored: Option<UserId>)
    ensures
        enforcer_of(stored_enforcer(enforcer)) == enforcer,
        stored_enforcer(enforcer_of(stored)) == stored,
{
}

/// Recording a slap, then looking up its message, gives back the report
/// that the recording returned, enforcer included.
pub proof fn lemma_record_then_lookup(
    rows: Seq<SlapRow>,
    guild: GuildId,
    offender: UserId,
    sentence: MessageId,
    enforcer: Enforcer,
    reason: Option<String>,
)
    ensures
        lookup(rows.push(recorded_row(guild, offender, sentence, enforcer, reason)), sentence)
            == Some(SlapReport { sentence, offender, enforcer, reason }),
{
    let row = recorded_row(guild, offender, sentence, enforcer, reason);
    assert(rows.push(row).last() == row);
}

/// A message without a report has no row at all.
pub proof fn lemma_lookup_none(rows: Seq<SlapRow>, sentence: MessageId)
    requires
        lookup(rows, sentence) is None,
    ensures
        forall|i: int| 0 <= i < rows.len() ==> #[trigger] rows[i].sentence != sentence,
    decreases rows.len(),
{
    if rows.len() > 0 {
        lemma_lookup_none(rows.drop_last(), sentence);
        assert forall|i: int| 0 <= i < rows.len() implies #[trigger] rows[i].sentence
            != sentence by {
            if i < rows.len() - 1 {
                assert(rows[i] == rows.drop_last()[i]);
            }
        }
    }
}

/// Where messages are distinct, the report of a message is the one of its
/// row.
pub proof fn lemma_lookup_unique(rows: Seq<SlapRow>, i: int)
    requires
        sentences_unique(rows),
        0 <= i < rows.len(),
    ensures
        lookup(rows, rows[i].sentence) == Some(report_of(rows[i])),
    decreases rows.len(),
{
    if i < rows.len() - 1 {
        let rest = rows.drop_last();
        assert(rows[i].sentence != rows[rows.len() - 1].sentence);
        assert(rest[i] == rows[i]);
        assert(sentences_unique(rest)) by {
            assert forall|a: int, b: int| 0 <= a < b < rest.len() implies #[trigger] rest[a].sentence
                != #[trigger] rest[b].sentence by {
                assert(rest[a] == rows[a] && rest[b] == rows[b]);
            }
        }
        lemma_lookup_unique(rest, i);
    }
}

/// Adding a row for a message without a report keeps the messages of the
/// ledger's rows distinct, as recording does.
pub proof fn lemma_record_keeps_unique(rows: Seq<SlapRow>, row: SlapRow)
    requires
        sentences_unique(rows),
        lookup(rows, row.sentence) is None,
    ensures
        sentences_unique(rows.push(row)),
{
    lemma_lookup_none(rows, row.sentence);
    let next = rows.push(row);
    assert forall|i: int, j: int| 0 <= i < j < next.len() implies #[trigger] next[i].sentence
        != #[trigger] next[j].sentence by {
        assert(next[i] == rows[i]);
        if j < rows.len() {
            assert(next[j] == rows[j]);
        }
    }
}

/// A new row shows last in the views of its community and of its member,
/// and in no other member's view; the counts grow by one accordingly.
pub proof fn lemma_record_shows_in_views(rows: Seq<SlapRow>, row: SlapRow, other: UserId)
    requires
        other != row.offender,
    ensures
        guild_reports(rows.push(row), row.guild) == guild_reports(rows, row.guild).push(
            report_of(row),
        ),
        member_reports(rows.push(row), row.guild, row.offender) == member_reports(
            rows,
            row.guild,
            row.offender,
        ).push(report_of(row)),
        member_reports(rows.push(row), row.guild, other) == member_reports(rows, row.guild, other),
{
    lemma_reports_push(rows, row, of_guild(row.guild));
    lemma_reports_push(rows, row, of_member(row.guild, row.offender));
    lemma_reports_push(rows, row, of_member(row.guild, other));
}
} // verus!
