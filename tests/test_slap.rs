use db_adapter::ids::{GuildId, MessageId, UserId};
use db_adapter::slap::{
    enforcer_to_option, option_to_enforcer, Enforcer, GuildSlapRecord, MemberSlapRecord,
    SlapReport, SlapRow, SlapTable,
};
use db_adapter::{AdapterError, StoreError};

const FIRST_ID: GuildId = GuildId(5844);
const SECOND_ID: GuildId = GuildId(8750);
const FIRST_SENTENCE: MessageId = MessageId(6841381385);
const FIRST_OFFENDER: UserId = UserId(87038540);
const SECOND_SENTENCE: MessageId = MessageId(878404);
const THIRD_SENTENCE: MessageId = MessageId(987698473);
const THIRD_OFFENDER: UserId = UserId(454);
const FOURTH_SENTENCE: MessageId = MessageId(1111);

fn row(
    sentence: MessageId,
    guild: GuildId,
    offender: UserId,
    enforcer: Option<UserId>,
    reason: Option<&str>,
) -> SlapRow {
    SlapRow {
        sentence,
        guild,
        offender,
        enforcer,
        reason: reason.map(|s| s.to_string()),
    }
}

fn fixture() -> SlapTable {
    let mut table = SlapTable::new();
    table
        .insert_row(row(
            FIRST_SENTENCE,
            FIRST_ID,
            FIRST_OFFENDER,
            Some(UserId(684308)),
            Some("just because"),
        ))
        .unwrap();
    table
        .insert_row(row(SECOND_SENTENCE, SECOND_ID, FIRST_OFFENDER, None, None))
        .unwrap();
    table
        .insert_row(row(
            THIRD_SENTENCE,
            FIRST_ID,
            THIRD_OFFENDER,
            Some(UserId(4543453)),
            None,
        ))
        .unwrap();
    table
        .insert_row(row(FOURTH_SENTENCE, FIRST_ID, FIRST_OFFENDER, None, None))
        .unwrap();
    table
}

fn first_report() -> SlapReport {
    SlapReport {
        sentence: FIRST_SENTENCE,
        offender: FIRST_OFFENDER,
        enforcer: Enforcer::Manager(UserId(684308)),
        reason: Some("just because".to_string()),
    }
}

fn third_report() -> SlapReport {
    SlapReport {
        sentence: THIRD_SENTENCE,
        offender: THIRD_OFFENDER,
        enforcer: Enforcer::Manager(UserId(4543453)),
        reason: None,
    }
}

fn fourth_report() -> SlapReport {
    SlapReport {
        sentence: FOURTH_SENTENCE,
        offender: FIRST_OFFENDER,
        enforcer: Enforcer::Community,
        reason: None,
    }
}

#[test]
fn sr_get() {
    let table = fixture();
    assert_eq!(SlapReport::get(&table, FIRST_SENTENCE), Some(first_report()));
    assert_eq!(SlapReport::get(&table, MessageId(1)), None);
}

#[test]
fn msr_len() {
    let table = fixture();
    let record = MemberSlapRecord::from((FIRST_ID, FIRST_OFFENDER));
    assert_eq!(record.len(&table), 2);
    assert_eq!(MemberSlapRecord(FIRST_ID, UserId(5)).len(&table), 0);
}

#[test]
fn msr_slaps() {
    let table = fixture();
    let record = MemberSlapRecord::from((FIRST_ID, FIRST_OFFENDER));
    assert_eq!(record.slaps(&table), vec![first_report(), fourth_report()]);
}

#[test]
fn msr_new_slap() {
    let mut table = fixture();
    let record = MemberSlapRecord::from((FIRST_ID, FIRST_OFFENDER));
    let sentence = MessageId(5864);
    let report = record
        .new_slap(&mut table, sentence, Enforcer::Community, None)
        .unwrap();
    assert_eq!(Some(report), SlapReport::get(&table, sentence));
    assert_eq!(record.len(&table), 3);
}

#[test]
fn record_then_lookup_keeps_manager_and_reason() {
    let mut table = SlapTable::new();
    let record = GuildSlapRecord::from(FIRST_ID);
    let report = record
        .new_slap(
            &mut table,
            MessageId(10),
            UserId(20),
            Enforcer::Manager(UserId(30)),
            Some("spam".to_string()),
        )
        .unwrap();
    assert_eq!(
        report,
        SlapReport {
            sentence: MessageId(10),
            offender: UserId(20),
            enforcer: Enforcer::Manager(UserId(30)),
            reason: Some("spam".to_string()),
        }
    );
    assert_eq!(SlapReport::get(&table, MessageId(10)), Some(report));
}

#[test]
fn duplicate_sentence_is_refused() {
    let mut table = fixture();
    let record = GuildSlapRecord::from(SECOND_ID);
    assert_eq!(
        record.new_slap(
            &mut table,
            FIRST_SENTENCE,
            UserId(1),
            Enforcer::Community,
            None
        ),
        Err(AdapterError::Store(StoreError::KeyViolation(FIRST_SENTENCE.0)))
    );
    assert_eq!(record.len(&table), 1);
    assert_eq!(SlapReport::get(&table, FIRST_SENTENCE), Some(first_report()));
}

#[test]
fn gsr_slaps() {
    let table = fixture();
    let record = GuildSlapRecord::from(FIRST_ID);
    assert_eq!(
        record.slaps(&table),
        vec![first_report(), third_report(), fourth_report()]
    );
    assert_eq!(record.len(&table), 3);
}

#[test]
fn gsr_members() {
    let table = fixture();
    let record = GuildSlapRecord::from(FIRST_ID);
    let members = record.offenders(&table);
    assert_eq!(
        members,
        vec![
            MemberSlapRecord::from((FIRST_ID, FIRST_OFFENDER)),
            MemberSlapRecord::from((record, THIRD_OFFENDER)),
        ]
    );
    assert_eq!(record.offender_count(&table), 2);
}

#[test]
fn empty_ledger_views() {
    let table = SlapTable::new();
    let record = GuildSlapRecord(FIRST_ID);
    assert_eq!(record.slaps(&table), vec![]);
    assert_eq!(record.len(&table), 0);
    assert_eq!(record.offenders(&table), vec![]);
    assert_eq!(record.offender_count(&table), 0);
}

#[test]
fn member_scenario_two_entries() {
    let mut table = SlapTable::new();
    let guild = GuildSlapRecord(GuildId(5844));
    let member = MemberSlapRecord(GuildId(5844), UserId(9001));
    let a = member
        .new_slap(&mut table, MessageId(1), Enforcer::Community, None)
        .unwrap();
    guild
        .new_slap(&mut table, MessageId(2), UserId(1234), Enforcer::Community, None)
        .unwrap();
    let b = member
        .new_slap(
            &mut table,
            MessageId(3),
            Enforcer::Manager(UserId(7)),
            Some("again".to_string()),
        )
        .unwrap();
    assert_eq!(member.slaps(&table), vec![a, b]);
    assert_eq!(member.len(&table), 2);
}

#[test]
fn enforcer_mapping_is_symmetric() {
    assert_eq!(option_to_enforcer(None), Enforcer::Community);
    assert_eq!(
        option_to_enforcer(Some(UserId(8))),
        Enforcer::Manager(UserId(8))
    );
    assert_eq!(enforcer_to_option(Enforcer::Community), None);
    assert_eq!(
        enforcer_to_option(Enforcer::Manager(UserId(8))),
        Some(UserId(8))
    );
    assert_eq!(Enforcer::from(None), Enforcer::Community);
    assert_eq!(Enforcer::from(Some(3u64)), Enforcer::Manager(UserId(3)));
}

#[test]
fn member_duplicate_sentence_is_a_store_error() {
    let mut table = fixture();
    let member = MemberSlapRecord(FIRST_ID, FIRST_OFFENDER);
    assert_eq!(
        member.new_slap(&mut table, THIRD_SENTENCE, Enforcer::Community, None),
        Err(AdapterError::Store(StoreError::KeyViolation(THIRD_SENTENCE.0)))
    );
    assert_eq!(member.len(&table), 2);
    assert_eq!(SlapReport::get(&table, THIRD_SENTENCE), Some(third_report()));
}

#[test]
fn insert_row_refuses_a_repeated_message() {
    let mut table = fixture();
    assert_eq!(
        table.insert_row(row(SECOND_SENTENCE, FIRST_ID, UserId(1), None, None)),
        Err(AdapterError::Store(StoreError::KeyViolation(SECOND_SENTENCE.0)))
    );
    assert_eq!(GuildSlapRecord(FIRST_ID).len(&table), 3);
}

#[test]
fn row_reports_map_the_enforcer() {
    let stored = row(MessageId(4), FIRST_ID, UserId(5), None, Some("vote"));
    assert_eq!(
        stored.report(),
        SlapReport {
            sentence: MessageId(4),
            offender: UserId(5),
            enforcer: Enforcer::Community,
            reason: Some("vote".to_string()),
        }
    );
    let stored = row(MessageId(6), FIRST_ID, UserId(5), Some(UserId(7)), None);
    assert_eq!(stored.report().enforcer, Enforcer::Manager(UserId(7)));
}
