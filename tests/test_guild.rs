use db_adapter::guild::{
    GuildConfig, GuildConfigBuilder, GuildConfigError, GuildRow, GuildTable, MessageType,
    Privilege, MESSAGE_LIMIT,
};
use db_adapter::ids::{ChannelId, GuildId, RoleId};

const FIRST_ID: GuildId = GuildId(5844);
const FIRST_WELCOME_MESSAGE: Option<&str> = Some("hello");
const FIRST_ADMIN_CHAN: Option<ChannelId> = Some(ChannelId(87904));
const FIRST_PRIV_MANAGER: [RoleId; 3] = [RoleId(22522), RoleId(44943544), RoleId(4444444)];
const FIRST_PRIV_ADMIN: [RoleId; 2] = [RoleId(22522), RoleId(44943544)];
const FIRST_PRIV_EVENT: [RoleId; 1] = [RoleId(48201365)];
const SECOND_ID: GuildId = GuildId(8750);

fn first_row() -> GuildRow {
    GuildRow {
        id: FIRST_ID,
        welcome_message: FIRST_WELCOME_MESSAGE.map(|s| s.to_string()),
        goodbye_message: None,
        advertise: true,
        admin_chan: FIRST_ADMIN_CHAN,
        poll_chans: Some(vec![ChannelId(2323), ChannelId(664), ChannelId(1212054)]),
        priv_manager: FIRST_PRIV_MANAGER.to_vec(),
        priv_admin: FIRST_PRIV_ADMIN.to_vec(),
        priv_event: FIRST_PRIV_EVENT.to_vec(),
    }
}

fn second_row() -> GuildRow {
    GuildRow {
        id: SECOND_ID,
        welcome_message: None,
        goodbye_message: Some("goodbye".to_string()),
        advertise: false,
        admin_chan: None,
        poll_chans: Some(vec![ChannelId(5406), ChannelId(254102), ChannelId(5455)]),
        priv_manager: vec![RoleId(843934), RoleId(3504), RoleId(84304)],
        priv_admin: vec![RoleId(843934), RoleId(3504)],
        priv_event: vec![RoleId(984762)],
    }
}

fn fixture() -> GuildTable {
    let mut table = GuildTable::new();
    table.put_row(first_row());
    table.put_row(second_row());
    table
}

#[test]
fn test_get_welcome_message() {
    let table = fixture();
    assert_eq!(
        GuildConfig::from(FIRST_ID)
            .get_welcome_message(&table)
            .unwrap()
            .unwrap()
            .as_str(),
        FIRST_WELCOME_MESSAGE.unwrap()
    );
}

#[test]
fn test_new() {
    let mut table = fixture();
    let id = GuildId(123456789);
    let mut builder = GuildConfigBuilder::new(id);
    let welcome = "Hello dear people";
    let goodbye = "So long my friend";
    builder
        .welcome_message(welcome)
        .unwrap()
        .goodbye_message(goodbye)
        .unwrap();
    assert_eq!(builder.guild(), id);
    let guild_config = GuildConfig::new(&mut table, builder).unwrap();
    assert!(guild_config.is_configured(&table));
    assert_eq!(
        guild_config.get_welcome_message(&table).unwrap().unwrap().as_str(),
        welcome
    );
    assert_eq!(
        guild_config.get_goodbye_message(&table).unwrap().unwrap().as_str(),
        goodbye
    );
    assert_eq!(guild_config.get_admin_chan(&table).unwrap(), None);
    assert!(guild_config.get_advertise(&table).unwrap());
    assert_eq!(
        guild_config.get_roles_with(&table, Privilege::Admin).unwrap(),
        vec![]
    );
}

#[test]
fn test_exists() {
    let table = fixture();
    assert!(GuildConfig::from(FIRST_ID).is_configured(&table));
    assert!(!GuildConfig::from(GuildId(572634589)).is_configured(&table));
}

#[test]
fn create_twice_is_refused() {
    let mut table = GuildTable::new();
    let id = GuildId(42);
    assert!(!GuildConfig::from(id).is_configured(&table));
    GuildConfig::new(&mut table, GuildConfigBuilder::new(id)).unwrap();
    assert!(GuildConfig::from(id).is_configured(&table));
    let mut builder = GuildConfigBuilder::new(id);
    builder.advertise(false);
    assert_eq!(
        GuildConfig::new(&mut table, builder),
        Err(GuildConfigError::AlreadyExists(id))
    );
    // the first row is kept as it was
    assert!(GuildConfig::from(id).get_advertise(&table).unwrap());
}

#[test]
fn test_some_get_welcome_message() {
    let table = fixture();
    assert_eq!(
        GuildConfig::from(FIRST_ID).get_welcome_message(&table).unwrap(),
        Some("hello".to_string())
    );
}

#[test]
fn test_none_get_welcome_message() {
    let table = fixture();
    assert_eq!(
        GuildConfig::from(SECOND_ID).get_welcome_message(&table).unwrap(),
        None
    );
    assert_eq!(
        GuildConfig::from(SECOND_ID).get_goodbye_message(&table).unwrap(),
        Some("goodbye".to_string())
    );
}

#[test]
fn test_set_welcome_message() {
    let mut table = fixture();
    let g_config = GuildConfig::from(FIRST_ID);
    g_config.set_welcome_message(&mut table, Some("new")).unwrap();
    assert_eq!(
        g_config.get_welcome_message(&table).unwrap(),
        Some("new".to_string())
    );
    g_config.set_welcome_message(&mut table, None).unwrap();
    assert_eq!(g_config.get_welcome_message(&table).unwrap(), None);
}

#[test]
fn welcome_message_at_the_limit_round_trips() {
    let mut table = fixture();
    let g_config = GuildConfig::from(FIRST_ID);
    // multi-byte characters: the limit counts characters, not bytes
    let text: String = std::iter::repeat('é').take(MESSAGE_LIMIT).collect();
    g_config.set_welcome_message(&mut table, Some(&text)).unwrap();
    assert_eq!(g_config.get_welcome_message(&table).unwrap(), Some(text));
}

#[test]
fn test_too_long_set_welcome_message() {
    let mut table = fixture();
    let g_config = GuildConfig::from(FIRST_ID);
    let text: String = std::iter::repeat('a').take(MESSAGE_LIMIT + 1).collect();
    assert_eq!(
        g_config.set_welcome_message(&mut table, Some(&text)),
        Err(GuildConfigError::MessageTooLong {
            field: "welcome_message".to_string()
        })
    );
    assert_eq!(
        g_config.get_welcome_message(&table).unwrap(),
        Some("hello".to_string())
    );
}

#[test]
fn too_long_goodbye_message_names_its_field() {
    let mut table = fixture();
    let g_config = GuildConfig::from(SECOND_ID);
    let text: String = std::iter::repeat('b').take(2001).collect();
    assert_eq!(
        g_config.set_goodbye_message(&mut table, Some(&text)),
        Err(GuildConfigError::MessageTooLong {
            field: "goodbye_message".to_string()
        })
    );
    assert_eq!(
        g_config.get_goodbye_message(&table).unwrap(),
        Some("goodbye".to_string())
    );
}

#[test]
fn builder_refuses_long_messages() {
    let text: String = std::iter::repeat('x').take(2001).collect();
    let mut builder = GuildConfigBuilder::new(GuildId(1));
    assert!(matches!(
        builder.welcome_message(&text),
        Err(GuildConfigError::MessageTooLong { field }) if field == "welcome_message"
    ));
    assert!(matches!(
        builder.goodbye_message(&text),
        Err(GuildConfigError::MessageTooLong { field }) if field == "goodbye_message"
    ));
    let mut table = GuildTable::new();
    let config = GuildConfig::new(&mut table, builder).unwrap();
    assert_eq!(config.get_welcome_message(&table).unwrap(), None);
    assert_eq!(config.get_goodbye_message(&table).unwrap(), None);
}

#[test]
fn message_field_names() {
    assert_eq!(MessageType::Welcome.field(), "welcome_message");
    assert_eq!(MessageType::Goodbye.field(), "goodbye_message");
}

#[test]
fn privilege_column_names() {
    assert_eq!(Privilege::Admin.column(), "priv_admin");
    assert_eq!(Privilege::Manager.column(), "priv_manager");
    assert_eq!(Privilege::Event.column(), "priv_event");
}

#[test]
fn test_get_advertise() {
    let table = fixture();
    assert!(GuildConfig::from(FIRST_ID).get_advertise(&table).unwrap());
    assert!(!GuildConfig::from(SECOND_ID).get_advertise(&table).unwrap());
}

#[test]
fn test_set_advertise() {
    let mut table = fixture();
    let g_config = GuildConfig::from(FIRST_ID);
    g_config.set_advertise(&mut table, false).unwrap();
    assert_eq!(g_config.get_advertise(&table).unwrap(), false);
}

#[test]
fn community_scenario() {
    let mut table = GuildTable::new();
    let mut builder = GuildConfigBuilder::new(GuildId(5844));
    builder.welcome_message("hello").unwrap().advertise(true);
    let config = GuildConfig::new(&mut table, builder).unwrap();
    assert_eq!(
        config.get_welcome_message(&table).unwrap(),
        Some("hello".to_string())
    );
    config.set_advertise(&mut table, false).unwrap();
    assert_eq!(config.get_advertise(&table).unwrap(), false);
}

#[test]
fn test_some_get_admin_chan() {
    let table = fixture();
    assert_eq!(
        GuildConfig::from(FIRST_ID).get_admin_chan(&table).unwrap(),
        Some(ChannelId(87904))
    );
}

#[test]
fn test_none_get_admin_chan() {
    let table = fixture();
    assert_eq!(
        GuildConfig::from(SECOND_ID).get_admin_chan(&table).unwrap(),
        None
    );
}

#[test]
fn test_set_admin_chan() {
    let mut table = fixture();
    let g_config = GuildConfig::from(SECOND_ID);
    g_config
        .set_admin_chan(&mut table, Some(ChannelId(1234567890)))
        .unwrap();
    assert_eq!(
        g_config.get_admin_chan(&table).unwrap(),
        Some(ChannelId(1234567890))
    );
}

#[test]
fn missing_community_reads_fail() {
    let mut table = fixture();
    let missing = GuildConfig::from(GuildId(999));
    assert_eq!(
        missing.get_welcome_message(&table),
        Err(GuildConfigError::NotFound(GuildId(999)))
    );
    assert_eq!(
        missing.get_advertise(&table),
        Err(GuildConfigError::NotFound(GuildId(999)))
    );
    assert_eq!(
        missing.grant_privilege(&mut table, RoleId(1), Privilege::Event),
        Err(GuildConfigError::NotFound(GuildId(999)))
    );
    assert_eq!(
        missing.deny_privilege(&mut table, RoleId(1), Privilege::Event),
        Err(GuildConfigError::NotFound(GuildId(999)))
    );
    // an update of a community without a row writes nothing
    assert_eq!(missing.set_advertise(&mut table, false), Ok(()));
    assert!(!missing.is_configured(&table));
}

#[test]
fn test_get_roles_with() {
    let table = fixture();
    let g_config = GuildConfig::from(FIRST_ID);
    assert_eq!(
        g_config.get_roles_with(&table, Privilege::Admin).unwrap(),
        FIRST_PRIV_ADMIN
    );
}

#[test]
fn roles_with_duplicates_are_reported_once() {
    let mut table = GuildTable::new();
    let mut row = first_row();
    row.priv_event = vec![RoleId(7), RoleId(8), RoleId(7)];
    table.put_row(row);
    assert_eq!(
        GuildConfig::from(FIRST_ID)
            .get_roles_with(&table, Privilege::Event)
            .unwrap(),
        vec![RoleId(7), RoleId(8)]
    );
}

#[test]
fn test_grant_admin_privilege() {
    let mut table = fixture();
    let guild_conf = GuildConfig::from(FIRST_ID);
    let role = RoleId(1234567);
    guild_conf
        .grant_privilege(&mut table, role, Privilege::Admin)
        .unwrap();
    assert!(guild_conf
        .has_privileges(&table, role, &[Privilege::Admin, Privilege::Manager])
        .unwrap());
    // both sets really hold the role
    assert!(guild_conf
        .has_privilege(&table, role, Privilege::Manager)
        .unwrap());
}

#[test]
fn test_grant_any_privilege() {
    let mut table = fixture();
    let guild_conf = GuildConfig::from(FIRST_ID);
    let role = RoleId(1234567);
    guild_conf
        .grant_privilege(&mut table, role, Privilege::Event)
        .unwrap();
    assert!(guild_conf
        .has_privilege(&table, role, Privilege::Event)
        .unwrap());
    assert!(!guild_conf
        .has_privilege(&table, role, Privilege::Manager)
        .unwrap());
}

#[test]
fn grant_twice_keeps_one_copy() {
    let mut table = fixture();
    let guild_conf = GuildConfig::from(FIRST_ID);
    let role = FIRST_PRIV_EVENT[0];
    guild_conf
        .grant_privilege(&mut table, role, Privilege::Event)
        .unwrap();
    assert_eq!(
        guild_conf.get_roles_with(&table, Privilege::Event).unwrap(),
        vec![role]
    );
    assert_eq!(
        table.row(FIRST_ID).unwrap().priv_event,
        vec![role]
    );
}

#[test]
fn test_deny_admin_privilege() {
    let mut table = fixture();
    let guild_conf = GuildConfig::from(FIRST_ID);
    guild_conf
        .deny_privilege(&mut table, FIRST_PRIV_ADMIN[0], Privilege::Admin)
        .unwrap();
    assert!(!guild_conf
        .has_privilege(&table, FIRST_PRIV_ADMIN[0], Privilege::Admin)
        .unwrap());
    assert!(!guild_conf
        .has_privilege(&table, FIRST_PRIV_ADMIN[0], Privilege::Manager)
        .unwrap());
}

#[test]
fn admin_grant_then_deny_scenario() {
    let mut table = fixture();
    let conf = GuildConfig::from(FIRST_ID);
    let role = RoleId(77);
    conf.grant_privilege(&mut table, role, Privilege::Admin).unwrap();
    assert!(conf
        .has_privileges(&table, role, &[Privilege::Admin, Privilege::Manager])
        .unwrap());
    conf.deny_privilege(&mut table, role, Privilege::Admin).unwrap();
    assert!(!conf.has_privilege(&table, role, Privilege::Admin).unwrap());
    assert!(!conf.has_privilege(&table, role, Privilege::Manager).unwrap());
}

#[test]
fn deny_manager_without_it_fails() {
    let mut table = fixture();
    let conf = GuildConfig::from(FIRST_ID);
    let role = RoleId(31337);
    assert_eq!(
        conf.deny_privilege(&mut table, role, Privilege::Manager),
        Err(GuildConfigError::RoleNoPrivilege {
            role,
            privilege: Privilege::Manager
        })
    );
    assert_eq!(
        conf.get_roles_with(&table, Privilege::Manager).unwrap(),
        FIRST_PRIV_MANAGER
    );
}

#[test]
fn deny_admin_of_a_manager_takes_manager_then_fails() {
    let mut table = fixture();
    let conf = GuildConfig::from(FIRST_ID);
    let role = FIRST_PRIV_MANAGER[2];
    assert_eq!(
        conf.deny_privilege(&mut table, role, Privilege::Admin),
        Err(GuildConfigError::RoleNoPrivilege {
            role,
            privilege: Privilege::Admin
        })
    );
    assert!(!conf.has_privilege(&table, role, Privilege::Manager).unwrap());
}

#[test]
fn deny_admin_when_manager_is_missing() {
    let mut table = GuildTable::new();
    let mut row = first_row();
    row.priv_admin = vec![RoleId(5)];
    row.priv_manager = vec![];
    table.put_row(row);
    let conf = GuildConfig::from(FIRST_ID);
    conf.deny_privilege(&mut table, RoleId(5), Privilege::Admin)
        .unwrap();
    assert!(!conf.has_privilege(&table, RoleId(5), Privilege::Admin).unwrap());
}

#[test]
fn deny_removes_every_copy() {
    let mut table = GuildTable::new();
    let mut row = first_row();
    row.priv_event = vec![RoleId(9), RoleId(3), RoleId(9)];
    table.put_row(row);
    let conf = GuildConfig::from(FIRST_ID);
    conf.deny_privilege(&mut table, RoleId(9), Privilege::Event)
        .unwrap();
    assert!(!conf.has_privilege(&table, RoleId(9), Privilege::Event).unwrap());
    assert_eq!(
        conf.get_roles_with(&table, Privilege::Event).unwrap(),
        vec![RoleId(3)]
    );
}

#[test]
fn test_have_privilege() {
    let table = fixture();
    let guild_config = GuildConfig::from(FIRST_ID);
    assert!(guild_config
        .have_privilege(
            &table,
            &[FIRST_PRIV_MANAGER[0], FIRST_PRIV_MANAGER[1]],
            Privilege::Manager
        )
        .unwrap());
    assert!(!guild_config
        .have_privilege(
            &table,
            &[FIRST_PRIV_MANAGER[0], FIRST_PRIV_MANAGER[2]],
            Privilege::Admin
        )
        .unwrap());
    assert!(guild_config
        .have_privilege(&table, &[], Privilege::Event)
        .unwrap());
}

#[test]
fn test_has_privilege() {
    let table = fixture();
    let guild_config = GuildConfig::from(FIRST_ID);
    assert!(guild_config
        .has_privilege(&table, FIRST_PRIV_MANAGER[0], Privilege::Manager)
        .unwrap());
    assert!(!guild_config
        .has_privilege(&table, FIRST_PRIV_MANAGER[2], Privilege::Admin)
        .unwrap());
}

#[test]
fn test_has_privileges() {
    let table = fixture();
    let guild_config = GuildConfig::from(FIRST_ID);
    assert!(guild_config
        .has_privileges(
            &table,
            FIRST_PRIV_ADMIN[0],
            &[Privilege::Admin, Privilege::Manager]
        )
        .unwrap());
    assert!(!guild_config
        .has_privileges(
            &table,
            FIRST_PRIV_ADMIN[0],
            &[Privilege::Admin, Privilege::Event]
        )
        .unwrap());
}

#[test]
fn test_get_privileges_for() {
    let table = fixture();
    let guild_config = GuildConfig::from(FIRST_ID);
    assert_eq!(
        guild_config
            .get_privileges_for(&table, FIRST_PRIV_ADMIN[0])
            .unwrap(),
        vec![Privilege::Admin, Privilege::Manager]
    );
    assert_eq!(
        guild_config
            .get_privileges_for(&table, FIRST_PRIV_MANAGER[2])
            .unwrap(),
        vec![Privilege::Manager]
    );
    assert_eq!(
        guild_config
            .get_privileges_for(&table, FIRST_PRIV_EVENT[0])
            .unwrap(),
        vec![Privilege::Event]
    );
    assert_eq!(
        guild_config.get_privileges_for(&table, RoleId(1)).unwrap(),
        vec![]
    );
}

#[test]
fn privileges_for_admin_without_manager_still_reports_manager() {
    let mut table = GuildTable::new();
    let mut row = first_row();
    row.priv_admin = vec![RoleId(5)];
    row.priv_manager = vec![];
    row.priv_event = vec![RoleId(5)];
    table.put_row(row);
    assert_eq!(
        GuildConfig::from(FIRST_ID)
            .get_privileges_for(&table, RoleId(5))
            .unwrap(),
        vec![Privilege::Admin, Privilege::Manager, Privilege::Event]
    );
}

#[test]
fn deny_manager_to_an_admin_takes_admin_too() {
    let mut table = fixture();
    let conf = GuildConfig::from(FIRST_ID);
    let role = FIRST_PRIV_ADMIN[0];
    conf.deny_privilege(&mut table, role, Privilege::Manager)
        .unwrap();
    assert!(!conf.has_privilege(&table, role, Privilege::Manager).unwrap());
    assert!(!conf.has_privilege(&table, role, Privilege::Admin).unwrap());
    assert_eq!(
        conf.get_roles_with(&table, Privilege::Admin).unwrap(),
        vec![FIRST_PRIV_ADMIN[1]]
    );
    assert_eq!(conf.get_privileges_for(&table, role).unwrap(), vec![]);
}
