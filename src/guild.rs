//! A community's configuration: messages, advertisement policy, admin
//! channel and the privilege system.
//!
//! Each community has one row in a [`GuildTable`]. The three privilege
//! role-sets obey one rule: a role with the admin privilege also has the
//! manager privilege. Granting admin grants manager first; denying admin
//! denies manager first.
use vstd::prelude::*;

use crate::ids::{ChannelId, GuildId, RoleId};
use std::collections::HashMap;

verus! {

broadcast use vstd::std_specs::hash::group_hash_axioms;

/// Longest message the chat platform accepts, in characters.
pub const MESSAGE_LIMIT: usize = 2000;

/// The two configurable messages.
#[derive(Clone, Copy, Debug, PartialEq, Eq, Structural)]
pub enum MessageType {
    Welcome,
    Goodbye,
}

impl MessageType {
    /// Name of the configuration field that holds this message.
    pub fn field(&self) -> (r: &'static str)
        ensures
            r@ == field_name(*self),
    {
        match self {
            MessageType::Welcome => "welcome_message",
            MessageType::Goodbye => "goodbye_message",
        }
    }
}

/// Name of the configuration field that holds a message.
pub open spec fn field_name(kind: MessageType) -> Seq<char> {
    match kind {
        MessageType::Welcome => "welcome_message"@,
        MessageType::Goodbye => "goodbye_message"@,
    }
}

/// Bot-specific permissions, distinct from the platform's own.
#[derive(Clone, Copy, Debug, PartialEq, Eq, Structural)]
pub enum Privilege {
    /// Low-level moderation powers, such as deleting messages.
    Manager,
    /// Use of all but a few features of the bot; implies [`Privilege::Manager`].
    Admin,
    /// Organising events with the bot's toolset.
    Event,
}

impl Privilege {
    /// Name of the configuration field that holds the roles with this
    /// privilege.
    pub fn column(&self) -> (r: &'static str)
        ensures
            r@ == privilege_column(*self),
    {
        match self {
            Privilege::Admin => "priv_admin",
            Privilege::Manager => "priv_manager",
            Privilege::Event => "priv_event",
        }
    }
}

/// Name of the configuration field that holds the roles with a privilege.
pub open spec fn privilege_column(privilege: Privilege) -> Seq<char> {
    match privilege {
        Privilege::Admin => "priv_admin"@,
        Privilege::Manager => "priv_manager"@,
        Privilege::Event => "priv_event"@,
    }
}

/// Errors of a community's configuration.
#[derive(Debug, PartialEq, Eq)]
pub enum GuildConfigError {
    /// The message given for `field` is over [`MESSAGE_LIMIT`] characters.
    MessageTooLong { field: String },
    /// The role does not hold the privilege that was to be denied.
    RoleNoPrivilege { role: RoleId, privilege: Privilege },
    /// The community already has a configuration row.
    AlreadyExists(GuildId),
    /// The community has no configuration row.
    NotFound(GuildId),
}

/// One configuration row, as the store holds it.
///
/// The role-sets are kept as arrays; their order carries no meaning and
/// duplicates count once.
#[derive(Debug)]
pub struct GuildRow {
    pub id: GuildId,
    pub welcome_message: Option<String>,
    pub goodbye_message: Option<String>,
    pub advertise: bool,
    pub admin_chan: Option<ChannelId>,
    pub poll_chans: Option<Vec<ChannelId>>,
    pub priv_manager: Vec<RoleId>,
    pub priv_admin: Vec<RoleId>,
    pub priv_event: Vec<RoleId>,
}

/// The model of a configuration row: texts as character sequences and
/// role-sets as sets.
pub struct GuildRowView {
    pub id: GuildId,
    pub welcome_message: Option<Seq<char>>,
    pub goodbye_message: Option<Seq<char>>,
    pub advertise: bool,
    pub admin_chan: Option<ChannelId>,
    pub poll_chans: Option<Seq<ChannelId>>,
    pub priv_manager: Set<RoleId>,
    pub priv_admin: Set<RoleId>,
    pub priv_event: Set<RoleId>,
}

/// The text of an optional string.
pub open spec fn text_of(s: Option<String>) -> Option<Seq<char>> {
    match s {
        Some(s) => Some(s@),
        None => None,
    }
}

/// The text of an optional string slice.
pub open spec fn str_text(s: Option<&str>) -> Option<Seq<char>> {
    match s {
        Some(s) => Some(s@),
        None => None,
    }
}

/// The roles that an array holds.
pub open spec fn role_set(roles: Seq<RoleId>) -> Set<RoleId> {
    Set::new(|r: RoleId| roles.contains(r))
}

impl View for GuildRow {
    type V = GuildRowView;

    open spec fn view(&self) -> GuildRowView {
        GuildRowView {
            id: self.id,
            welcome_message: text_of(self.welcome_message),
            goodbye_message: text_of(self.goodbye_message),
            advertise: self.advertise,
            admin_chan: self.admin_chan,
            poll_chans: match self.poll_chans {
                Some(v) => Some(v@),
                None => None,
            },
            priv_manager: role_set(self.priv_manager@),
            priv_admin: role_set(self.priv_admin@),
            priv_event: role_set(self.priv_event@),
        }
    }
}

/// The message of one kind in a row.
pub open spec fn message_of(row: GuildRowView, kind: MessageType) -> Option<Seq<char>> {
    match kind {
        MessageType::Welcome => row.welcome_message,
        MessageType::Goodbye => row.goodbye_message,
    }
}

/// A row with the message of one kind replaced.
pub open spec fn with_message(
    row: GuildRowView,
    kind: MessageType,
    msg: Option<Seq<char>>,
) -> GuildRowView {
    match kind {
        MessageType::Welcome => GuildRowView { welcome_message: msg, ..row },
        MessageType::Goodbye => GuildRowView { goodbye_message: msg, ..row },
    }
}

/// The roles of a row that hold a privilege.
pub open spec fn roles_of(row: GuildRowView, privilege: Privilege) -> Set<RoleId> {
    match privilege {
        Privilege::Manager => row.priv_manager,
        Privilege::Admin => row.priv_admin,
        Privilege::Event => row.priv_event,
    }
}

/// A row with the role-set of one privilege replaced.
pub open spec fn with_roles(
    row: GuildRowView,
    privilege: Privilege,
    roles: Set<RoleId>,
) -> GuildRowView {
    match privilege {
        Privilege::Manager => GuildRowView { priv_manager: roles, ..row },
        Privilege::Admin => GuildRowView { priv_admin: roles, ..row },
        Privilege::Event => GuildRowView { priv_event: roles, ..row },
    }
}

/// Whether a role holds a privilege in a row.
pub open spec fn holds(row: GuildRowView, role: RoleId, privilege: Privilege) -> bool {
    roles_of(row, privilege).contains(role)
}

/// The cross-set rule: every admin role is also a manager role.
pub open spec fn consistent(row: GuildRowView) -> bool {
    row.priv_admin.subset_of(row.priv_manager)
}

/// The row after `role` is granted `privilege`: granting admin adds the
/// role to the managers first.
pub open spec fn granted(row: GuildRowView, role: RoleId, privilege: Privilege) -> GuildRowView {
    let first = if privilege == Privilege::Admin {
        with_roles(row, Privilege::Manager, row.priv_manager.insert(role))
    } else {
        row
    };
    with_roles(first, privilege, roles_of(first, privilege).insert(role))
}

/// The row after the cascade step of a denial: denying admin removes the
/// role from the managers first, whether or not it was one.
pub open spec fn deny_cascaded(
    row: GuildRowView,
    role: RoleId,
    privilege: Privilege,
) -> GuildRowView {
    if privilege == Privilege::Admin {
        with_roles(row, Privilege::Manager, row.priv_manager.remove(role))
    } else {
        row
    }
}

/// The row after `role` is denied `privilege`. Where the role does not hold
/// the privilege the denial fails, and only the cascade step took effect.
/// A manager that is denied manager loses admin too, so that no admin role
/// is left without manager.
pub open spec fn denied(row: GuildRowView, role: RoleId, privilege: Privilege) -> GuildRowView {
    let first = deny_cascaded(row, role, privilege);
    if holds(row, role, privilege) {
        let second = with_roles(first, privilege, roles_of(first, privilege).remove(role));
        if privilege == Privilege::Manager {
            with_roles(second, Privilege::Admin, second.priv_admin.remove(role))
        } else {
            second
        }
    } else {
        first
    }
}

/// The privileges of a role, in reporting order: admin then manager when it
/// is an admin, else manager alone when it is a manager; then event.
pub open spec fn privileges_of(row: GuildRowView, role: RoleId) -> Seq<Privilege> {
    let axis = if holds(row, role, Privilege::Admin) {
        seq![Privilege::Admin, Privilege::Manager]
    } else if holds(row, role, Privilege::Manager) {
        seq![Privilege::Manager]
    } else {
        Seq::empty()
    };
    if holds(row, role, Privilege::Event) {
        axis.push(Privilege::Event)
    } else {
        axis
    }
}

/// The configuration rows of all communities, keyed by community.
pub struct GuildTable {
    rows: HashMap<u64, GuildRow>,
}

impl View for GuildTable {
    type V = Map<u64, GuildRowView>;

    closed spec fn view(&self) -> Map<u64, GuildRowView> {
        Map::new(|k: u64| self.rows@.contains_key(k), |k: u64| self.rows@[k]@)
    }
}

impl GuildTable {
    /// A table with no row.
    pub fn new() -> (r: GuildTable)
        ensures
            r@ == Map::<u64, GuildRowView>::empty(),
    {
        let r = GuildTable { rows: HashMap::new() };
        assert(r@ =~= Map::<u64, GuildRowView>::empty());
        r
    }

    /// Stores `row` under its community, replacing the row that was there.
    pub fn put_row(&mut self, row: GuildRow)
        ensures
            final(self)@ == old(self)@.insert(row.id.0, row@),
    {
        let key = row.id.0;
        let ghost v = row@;
        self.rows.insert(key, row);
        assert(self@ =~= old(self)@.insert(key, v));
    }

    /// The row of a community, if it has one.
    pub fn row(&self, id: GuildId) -> (r: Option<&GuildRow>)
        ensures
            match r {
                Some(row) => self@.contains_key(id.0) && row@ == self@[id.0],
                None => !self@.contains_key(id.0),
            },
    {
        self.rows.get(&id.0)
    }
}


/// A table where the row of community `k`, if there is one, went through `f`.
/// Changes to a community without a row change nothing.
pub open spec fn updated(
    t: Map<u64, GuildRowView>,
    k: u64,
    f: spec_fn(GuildRowView) -> GuildRowView,
) -> Map<u64, GuildRowView> {
    if t.contains_key(k) {
        t.insert(k, f(t[k]))
    } else {
        t
    }
}

/// The table after the row `row` is created, or `None` when its community
/// has a row already.
pub open spec fn created(t: Map<u64, GuildRowView>, row: GuildRowView) -> Option<
    Map<u64, GuildRowView>,
> {
    if t.contains_key(row.id.0) {
        None
    } else {
        Some(t.insert(row.id.0, row))
    }
}

/// Whether an optional message is over the platform's limit.
pub open spec fn too_long(msg: Option<Seq<char>>) -> bool {
    match msg {
        Some(m) => m.len() > MESSAGE_LIMIT,
        None => false,
    }
}

/// The row of a new community before any option is set: advertising on,
/// everything else empty.
pub open spec fn fresh_row(id: GuildId) -> GuildRowView {
    GuildRowView {
        id,
        welcome_message: None,
        goodbye_message: None,
        advertise: true,
        admin_chan: None,
        poll_chans: None,
        priv_manager: Set::empty(),
        priv_admin: Set::empty(),
        priv_event: Set::empty(),
    }
}

proof fn lemma_push_contains(s: Seq<RoleId>, v: RoleId)
    ensures
        forall|x: RoleId| #[trigger] s.push(v).contains(x) <==> (s.contains(x) || x == v),
{
    assert forall|x: RoleId| #[trigger] s.push(v).contains(x) <==> (s.contains(x) || x == v) by {
        if s.contains(x) {
            let i = choose|i: int| 0 <= i < s.len() && s[i] == x;
            assert(s.push(v)[i] == x);
        }
        if x == v {
            assert(s.push(v)[s.len() as int] == v);
        }
        if s.push(v).contains(x) {
            let i = choose|i: int| 0 <= i < s.len() + 1 && s.push(v)[i] == x;
            if i < s.len() {
                assert(s[i] == x);
            }
        }
    }
}

/// Whether `roles` holds `role`.
fn contains_role(roles: &Vec<RoleId>, role: RoleId) -> (r: bool)
    ensures
        r == roles@.contains(role),
{
    let mut i: usize = 0;
    while i < roles.len()
        invariant
            i <= roles@.len(),
            forall|j: int| 0 <= j < i ==> roles@[j] != role,
        decreases roles@.len() - i,
    {
        if roles[i] == role {
            assert(roles@[i as int] == role);
            return true;
        }
        i = i + 1;
    }
    false
}

/// Adds `role` to the array, unless it is there already.
fn add_role(roles: &mut Vec<RoleId>, role: RoleId)
    ensures
        role_set(final(roles)@) == role_set(old(roles)@).insert(role),
{
    if !contains_role(roles, role) {
        roles.push(role);
        proof {
            lemma_push_contains(old(roles)@, role);
        }
    }
    assert(role_set(roles@) =~= role_set(old(roles)@).insert(role));
}

/// The array without any copy of `role`.
fn remove_role(roles: &Vec<RoleId>, role: RoleId) -> (r: Vec<RoleId>)
    ensures
        role_set(r@) == role_set(roles@).remove(role),
{
    let mut kept: Vec<RoleId> = Vec::new();
    let mut i: usize = 0;
    while i < roles.len()
        invariant
            i <= roles@.len(),
            forall|x: RoleId| kept@.contains(x) ==> x != role && roles@.contains(x),
            forall|j: int| 0 <= j < i && roles@[j] != role ==> kept@.contains(roles@[j]),
        decreases roles@.len() - i,
    {
        let current = roles[i];
        proof {
            lemma_push_contains(kept@, current);
            assert(roles@[i as int] == current);
        }
        if current != role {
            kept.push(current);
        }
        i = i + 1;
    }
    assert forall|x: RoleId| role_set(roles@).remove(role).contains(x) implies kept@.contains(
        x,
    ) by {
        let j = choose|j: int| 0 <= j < roles@.len() && roles@[j] == x;
    }
    assert(role_set(kept@) =~= role_set(roles@).remove(role));
    kept
}

/// The roles of `roles`, each once.
fn distinct_roles(roles: &Vec<RoleId>) -> (r: Vec<RoleId>)
    ensures
        role_set(r@) == role_set(roles@),
        r@.no_duplicates(),
{
    let mut out: Vec<RoleId> = Vec::new();
    let mut i: usize = 0;
    while i < roles.len()
        invariant
            i <= roles@.len(),
            out@.no_duplicates(),
            forall|x: RoleId| out@.contains(x) ==> roles@.contains(x),
            forall|j: int| 0 <= j < i ==> out@.contains(roles@[j]),
        decreases roles@.len() - i,
    {
        let current = roles[i];
        proof {
            lemma_push_contains(out@, current);
            assert(roles@[i as int] == current);
        }
        if !contains_role(&out, current) {
            out.push(current);
        }
        i = i + 1;
    }
    assert forall|x: RoleId| role_set(roles@).contains(x) implies out@.contains(x) by {
        let j = choose|j: int| 0 <= j < roles@.len() && roles@[j] == x;
    }
    assert(role_set(out@) =~= role_set(roles@));
    out
}

/// A copy of an optional text.
fn copy_text(s: &Option<String>) -> (r: Option<String>)
    ensures
        text_of(r) == text_of(*s),
{
    match s {
        Some(text) => Some(text.clone()),
        None => None,
    }
}

/// An owned copy of an optional string slice.
fn own_text(s: Option<&str>) -> (r: Option<String>)
    ensures
        text_of(r) == str_text(s),
{
    match s {
        Some(text) => Some(String::from_str(text)),
        None => None,
    }
}

/// The array of a row that holds the roles with a privilege.
fn roles_in(row: &GuildRow, privilege: Privilege) -> (r: &Vec<RoleId>)
    ensures
        role_set(r@) == roles_of(row@, privilege),
{
    match privilege {
        Privilege::Manager => &row.priv_manager,
        Privilege::Admin => &row.priv_admin,
        Privilege::Event => &row.priv_event,
    }
}

/// Builder of a new configuration row, with defaults: advertising on,
/// no messages, no admin channel, empty role-sets.
#[derive(Debug)]
pub struct GuildConfigBuilder<'a> {
    id: GuildId,
    welcome_message: Option<&'a str>,
    goodbye_message: Option<&'a str>,
    advertise: bool,
    admin_chan: Option<ChannelId>,
    poll_chans: Option<Vec<ChannelId>>,
    priv_manager: Vec<RoleId>,
    priv_admin: Vec<RoleId>,
    priv_event: Vec<RoleId>,
}

impl<'a> View for GuildConfigBuilder<'a> {
    type V = GuildRowView;

    /// The row that the builder describes.
    closed spec fn view(&self) -> GuildRowView {
        GuildRowView {
            id: self.id,
            welcome_message: str_text(self.welcome_message),
            goodbye_message: str_text(self.goodbye_message),
            advertise: self.advertise,
            admin_chan: self.admin_chan,
            poll_chans: match self.poll_chans {
                Some(v) => Some(v@),
                None => None,
            },
            priv_manager: role_set(self.priv_manager@),
            priv_admin: role_set(self.priv_admin@),
            priv_event: role_set(self.priv_event@),
        }
    }
}

impl<'a> GuildConfigBuilder<'a> {
    /// A builder for community `id`, with the defaults.
    pub fn new(id: GuildId) -> (r: GuildConfigBuilder<'a>)
        ensures
            r@ == fresh_row(id),
    {
        let r = GuildConfigBuilder {
            id,
            welcome_message: None,
            goodbye_message: None,
            advertise: true,
            admin_chan: None,
            poll_chans: None,
            priv_manager: Vec::new(),
            priv_admin: Vec::new(),
            priv_event: Vec::new(),
        };
        proof {
            assert(role_set(Seq::<RoleId>::empty()) =~= Set::<RoleId>::empty());
        }
        assert(r@ == fresh_row(id));
        r
    }

    /// Sets the welcome message; refused when over [`MESSAGE_LIMIT`]
    /// characters, leaving the builder as it was.
    pub fn welcome_message(&mut self, msg: &'a str) -> (r: Result<&mut Self, GuildConfigError>)
        ensures
            msg@.len() > MESSAGE_LIMIT ==> final(self)@ == old(self)@ && match r {
                Err(GuildConfigError::MessageTooLong { field }) => field@ == field_name(
                    MessageType::Welcome,
                ),
                _ => false,
            },
            msg@.len() <= MESSAGE_LIMIT ==> match r {
                Ok(b) => b@ == with_message(old(self)@, MessageType::Welcome, Some(msg@))
                    && final(self)@ == final(b)@,
                _ => false,
            },
    {
        if msg.unicode_len() > MESSAGE_LIMIT {
            Err(
                GuildConfigError::MessageTooLong {
                    field: String::from_str(MessageType::Welcome.field()),
                },
            )
        } else {
            self.welcome_message = Some(msg);
            Ok(self)
        }
    }

    /// Sets the goodbye message; refused when over [`MESSAGE_LIMIT`]
    /// characters, leaving the builder as it was.
    pub fn goodbye_message(&mut self, msg: &'a str) -> (r: Result<&mut Self, GuildConfigError>)
        ensures
            msg@.len() > MESSAGE_LIMIT ==> final(self)@ == old(self)@ && match r {
                Err(GuildConfigError::MessageTooLong { field }) => field@ == field_name(
                    MessageType::Goodbye,
                ),
                _ => false,
            },
            msg@.len() <= MESSAGE_LIMIT ==> match r {
                Ok(b) => b@ == with_message(old(self)@, MessageType::Goodbye, Some(msg@))
                    && final(self)@ == final(b)@,
                _ => false,
            },
    {
        if msg.unicode_len() > MESSAGE_LIMIT {
            Err(
                GuildConfigError::MessageTooLong {
                    field: String::from_str(MessageType::Goodbye.field()),
                },
            )
        } else {
            self.goodbye_message = Some(msg);
            Ok(self)
        }
    }

    /// The community that the builder describes.
    pub fn guild(&self) -> (r: GuildId)
        ensures
            r == self@.id,
    {
        self.id
    }

    /// Sets the advertisement policy.
    pub fn advertise(&mut self, v: bool) -> (r: &mut Self)
        ensures
            r@ == (GuildRowView { advertise: v, ..old(self)@ }),
            final(self)@ == final(r)@,
    {
        self.advertise = v;
        self
    }
}

/// A handle on the configuration of one community.
#[derive(Debug, PartialEq, Eq, Structural)]
pub struct GuildConfig(pub GuildId);

impl From<GuildId> for GuildConfig {
    fn from(src: GuildId) -> (r: GuildConfig)
        ensures
            r == GuildConfig(src),
    {
        GuildConfig(src)
    }
}

impl vstd::std_specs::convert::FromSpecImpl<GuildId> for GuildConfig {
    open spec fn obeys_from_spec() -> bool {
        true
    }

    open spec fn from_spec(src: GuildId) -> GuildConfig {
        GuildConfig(src)
    }
}

impl GuildConfig {
    /// Adds the row that `builder` describes. Refused with
    /// [`GuildConfigError::AlreadyExists`] when the community has a row: an
    /// existing row is never overwritten.
    pub fn new(conn: &mut GuildTable, builder: GuildConfigBuilder) -> (r: Result<
        GuildConfig,
        GuildConfigError,
    >)
        ensures
            match created(old(conn)@, builder@) {
                Some(t) => r == Ok::<GuildConfig, GuildConfigError>(GuildConfig(builder@.id))
                    && final(conn)@ == t,
                None => r == Err::<GuildConfig, GuildConfigError>(
                    GuildConfigError::AlreadyExists(builder@.id),
                ) && final(conn)@ == old(conn)@,
            },
    {
        let id = builder.id;
        let guild_config = GuildConfig::from(id);
        if guild_config.is_configured(conn) {
            return Err(GuildConfigError::AlreadyExists(id));
        }
        let row = GuildRow {
            id,
            welcome_message: own_text(builder.welcome_message),
            goodbye_message: own_text(builder.goodbye_message),
            advertise: builder.advertise,
            admin_chan: builder.admin_chan,
            poll_chans: builder.poll_chans,
            priv_manager: builder.priv_manager,
            priv_admin: builder.priv_admin,
            priv_event: builder.priv_event,
        };
        conn.put_row(row);
        Ok(guild_config)
    }

    /// Whether the community has a configuration row.
    pub fn is_configured(&self, conn: &GuildTable) -> (r: bool)
        ensures
            r == conn@.contains_key(self.0.0),
    {
        conn.rows.contains_key(&self.0.0)
    }

    fn get_message(&self, conn: &GuildTable, msg_ty: MessageType) -> (r: Result<
        Option<String>,
        GuildConfigError,
    >)
        ensures
            match r {
                Ok(m) => conn@.contains_key(self.0.0) && text_of(m) == message_of(
                    conn@[self.0.0],
                    msg_ty,
                ),
                Err(e) => !conn@.contains_key(self.0.0) && e == GuildConfigError::NotFound(self.0),
            },
    {
        match conn.rows.get(&self.0.0) {
            Some(row) => match msg_ty {
                MessageType::Welcome => Ok(copy_text(&row.welcome_message)),
                MessageType::Goodbye => Ok(copy_text(&row.goodbye_message)),
            },
            None => Err(GuildConfigError::NotFound(self.0)),
        }
    }

    /// The welcome message, sent to new members; `None` disables it.
    pub fn get_welcome_message(&self, conn: &GuildTable) -> (r: Result<
        Option<String>,
        GuildConfigError,
    >)
        ensures
            match r {
                Ok(m) => conn@.contains_key(self.0.0) && text_of(m)
                    == conn@[self.0.0].welcome_message,
                Err(e) => !conn@.contains_key(self.0.0) && e == GuildConfigError::NotFound(self.0),
            },
    {
        self.get_message(conn, MessageType::Welcome)
    }

    /// The goodbye message; `None` disables it.
    pub fn get_goodbye_message(&self, conn: &GuildTable) -> (r: Result<
        Option<String>,
        GuildConfigError,
    >)
        ensures
            match r {
                Ok(m) => conn@.contains_key(self.0.0) && text_of(m)
                    == conn@[self.0.0].goodbye_message,
                Err(e) => !conn@.contains_key(self.0.0) && e == GuildConfigError::NotFound(self.0),
            },
    {
        self.get_message(conn, MessageType::Goodbye)
    }

    fn set_message(&self, conn: &mut GuildTable, msg_ty: MessageType, msg: Option<&str>) -> (r:
        Result<(), GuildConfigError>)
        ensures
            too_long(str_text(msg)) ==> final(conn)@ == old(conn)@ && match r {
                Err(GuildConfigError::MessageTooLong { field }) => field@ == field_name(msg_ty),
                _ => false,
            },
            !too_long(str_text(msg)) ==> r is Ok && final(conn)@ == updated(
                old(conn)@,
                self.0.0,
                |row: GuildRowView| with_message(row, msg_ty, str_text(msg)),
            ),
    {
        if let Some(text) = msg {
            if text.unicode_len() > MESSAGE_LIMIT {
                return Err(
                    GuildConfigError::MessageTooLong { field: String::from_str(msg_ty.field()) },
                );
            }
        }
        let key = self.0.0;
        match conn.rows.remove(&key) {
            Some(mut row) => {
                let ghost before = row@;
                match msg_ty {
                    MessageType::Welcome => row.welcome_message = own_text(msg),
                    MessageType::Goodbye => row.goodbye_message = own_text(msg),
                }
                assert(row@ == with_message(before, msg_ty, str_text(msg)));
                conn.rows.insert(key, row);
            },
            None => {},
        }
        assert(conn@ =~= updated(
            old(conn)@,
            key,
            |row: GuildRowView| with_message(row, msg_ty, str_text(msg)),
        ));
        Ok(())
    }

    /// Replaces the welcome message. A message over [`MESSAGE_LIMIT`]
    /// characters is refused before anything is written.
    pub fn set_welcome_message(&self, conn: &mut GuildTable, msg: Option<&str>) -> (r: Result<
        (),
        GuildConfigError,
    >)
        ensures
            too_long(str_text(msg)) ==> final(conn)@ == old(conn)@ && match r {
                Err(GuildConfigError::MessageTooLong { field }) => field@ == "welcome_message"@,
                _ => false,
            },
            !too_long(str_text(msg)) ==> r is Ok && final(conn)@ == updated(
                old(conn)@,
                self.0.0,
                |row: GuildRowView| with_message(row, MessageType::Welcome, str_text(msg)),
            ),
    {
        self.set_message(conn, MessageType::Welcome, msg)
    }

    /// Replaces the goodbye message. A message over [`MESSAGE_LIMIT`]
    /// characters is refused before anything is written.
    pub fn set_goodbye_message(&self, conn: &mut GuildTable, msg: Option<&str>) -> (r: Result<
        (),
        GuildConfigError,
    >)
        ensures
            too_long(str_text(msg)) ==> final(conn)@ == old(conn)@ && match r {
                Err(GuildConfigError::MessageTooLong { field }) => field@ == "goodbye_message"@,
                _ => false,
            },
            !too_long(str_text(msg)) ==> r is Ok && final(conn)@ == updated(
                old(conn)@,
                self.0.0,
                |row: GuildRowView| with_message(row, MessageType::Goodbye, str_text(msg)),
            ),
    {
        self.set_message(conn, MessageType::Goodbye, msg)
    }

    /// The advertisement policy.
    pub fn get_advertise(&self, conn: &GuildTable) -> (r: Result<bool, GuildConfigError>)
        ensures
            match r {
                Ok(b) => conn@.contains_key(self.0.0) && b == conn@[self.0.0].advertise,
                Err(e) => !conn@.contains_key(self.0.0) && e == GuildConfigError::NotFound(self.0),
            },
    {
        match conn.rows.get(&self.0.0) {
            Some(row) => Ok(row.advertise),
            None => Err(GuildConfigError::NotFound(self.0)),
        }
    }

    /// Changes the advertisement policy.
    pub fn set_advertise(&self, conn: &mut GuildTable, policy: bool) -> (r: Result<
        (),
        GuildConfigError,
    >)
        ensures
            r is Ok,
            final(conn)@ == updated(
                old(conn)@,
                self.0.0,
                |row: GuildRowView| (GuildRowView { advertise: policy, ..row }),
            ),
    {
        let key = self.0.0;
        match conn.rows.remove(&key) {
            Some(mut row) => {
                row.advertise = policy;
                conn.rows.insert(key, row);
            },
            None => {},
        }
        assert(conn@ =~= updated(
            old(conn)@,
            key,
            |row: GuildRowView| (GuildRowView { advertise: policy, ..row }),
        ));
        Ok(())
    }

    /// The channel where notices for the community's admins are posted.
    pub fn get_admin_chan(&self, conn: &GuildTable) -> (r: Result<
        Option<ChannelId>,
        GuildConfigError,
    >)
        ensures
            match r {
                Ok(c) => conn@.contains_key(self.0.0) && c == conn@[self.0.0].admin_chan,
                Err(e) => !conn@.contains_key(self.0.0) && e == GuildConfigError::NotFound(self.0),
            },
    {
        match conn.rows.get(&self.0.0) {
            Some(row) => Ok(row.admin_chan),
            None => Err(GuildConfigError::NotFound(self.0)),
        }
    }

    /// Changes the admin channel.
    pub fn set_admin_chan(&self, conn: &mut GuildTable, chan: Option<ChannelId>) -> (r: Result<
        (),
        GuildConfigError,
    >)
        ensures
            r is Ok,
            final(conn)@ == updated(
                old(conn)@,
                self.0.0,
                |row: GuildRowView| (GuildRowView { admin_chan: chan, ..row }),
            ),
    {
        let key = self.0.0;
        match conn.rows.remove(&key) {
            Some(mut row) => {
                row.admin_chan = chan;
                conn.rows.insert(key, row);
            },
            None => {},
        }
        assert(conn@ =~= updated(
            old(conn)@,
            key,
            |row: GuildRowView| (GuildRowView { admin_chan: chan, ..row }),
        ));
        Ok(())
    }

    /// The roles with a privilege, each once.
    pub fn get_roles_with(&self, conn: &GuildTable, privilege: Privilege) -> (r: Result<
        Vec<RoleId>,
        GuildConfigError,
    >)
        ensures
            match r {
                Ok(v) => conn@.contains_key(self.0.0) && role_set(v@) == roles_of(
                    conn@[self.0.0],
                    privilege,
                ) && v@.no_duplicates(),
                Err(e) => !conn@.contains_key(self.0.0) && e == GuildConfigError::NotFound(self.0),
            },
    {
        match conn.rows.get(&self.0.0) {
            Some(row) => Ok(distinct_roles(roles_in(row, privilege))),
            None => Err(GuildConfigError::NotFound(self.0)),
        }
    }

    /// Gives a role a privilege. Granting admin grants manager first, so
    /// that every admin role stays a manager role.
    pub fn grant_privilege(&self, conn: &mut GuildTable, id: RoleId, privilege: Privilege) -> (r:
        Result<(), GuildConfigError>)
        ensures
            old(conn)@.contains_key(self.0.0) ==> r is Ok && final(conn)@ == old(conn)@.insert(
                self.0.0,
                granted(old(conn)@[self.0.0], id, privilege),
            ),
            !old(conn)@.contains_key(self.0.0) ==> r == Err::<(), GuildConfigError>(
                GuildConfigError::NotFound(self.0),
            ) && final(conn)@ == old(conn)@,
    {
        let key = self.0.0;
        let mut row = match conn.rows.remove(&key) {
            Some(row) => row,
            None => {
                assert(conn@ =~= old(conn)@);
                return Err(GuildConfigError::NotFound(self.0));
            },
        };
        let ghost before = row@;
        if privilege == Privilege::Admin {
            add_role(&mut row.priv_manager, id);
        }
        match privilege {
            Privilege::Manager => add_role(&mut row.priv_manager, id),
            Privilege::Admin => add_role(&mut row.priv_admin, id),
            Privilege::Event => add_role(&mut row.priv_event, id),
        }
        assert(row@ == granted(before, id, privilege));
        conn.rows.insert(key, row);
        assert(conn@ =~= old(conn)@.insert(key, granted(before, id, privilege)));
        Ok(())
    }

    /// Takes a privilege from a role. Denying admin first takes manager from
    /// the role too, whether or not it held it; denying manager takes admin
    /// as well, so that every admin role stays a manager role. Fails with
    /// [`GuildConfigError::RoleNoPrivilege`] when the role does not hold the
    /// privilege; the cascade step on manager has then still taken effect.
    pub fn deny_privilege(&self, conn: &mut GuildTable, id: RoleId, privilege: Privilege) -> (r:
        Result<(), GuildConfigError>)
        ensures
            old(conn)@.contains_key(self.0.0) ==> final(conn)@ == old(conn)@.insert(
                self.0.0,
                denied(old(conn)@[self.0.0], id, privilege),
            ) && (r is Ok <==> holds(old(conn)@[self.0.0], id, privilege)) && (r is Err ==> r
                == Err::<(), GuildConfigError>(
                GuildConfigError::RoleNoPrivilege { role: id, privilege },
            )),
            !old(conn)@.contains_key(self.0.0) ==> r == Err::<(), GuildConfigError>(
                GuildConfigError::NotFound(self.0),
            ) && final(conn)@ == old(conn)@,
    {
        let key = self.0.0;
        let mut row = match conn.rows.remove(&key) {
            Some(row) => row,
            None => {
                assert(conn@ =~= old(conn)@);
                return Err(GuildConfigError::NotFound(self.0));
            },
        };
        let ghost before = row@;
        if privilege == Privilege::Admin {
            row.priv_manager = remove_role(&row.priv_manager, id);
        }
        assert(row@ == deny_cascaded(before, id, privilege));
        if !contains_role(roles_in(&row, privilege), id) {
            conn.rows.insert(key, row);
            assert(conn@ =~= old(conn)@.insert(key, denied(before, id, privilege)));
            return Err(GuildConfigError::RoleNoPrivilege { role: id, privilege });
        }
        match privilege {
            Privilege::Manager => {
                row.priv_manager = remove_role(&row.priv_manager, id);
                row.priv_admin = remove_role(&row.priv_admin, id);
            },
            Privilege::Admin => row.priv_admin = remove_role(&row.priv_admin, id),
            Privilege::Event => row.priv_event = remove_role(&row.priv_event, id),
        }
        assert(row@ == denied(before, id, privilege));
        conn.rows.insert(key, row);
        assert(conn@ =~= old(conn)@.insert(key, denied(before, id, privilege)));
        Ok(())
    }

    /// Whether every role of `roles` holds the privilege.
    pub fn have_privilege(
        &self,
        conn: &GuildTable,
        roles: &[RoleId],
        privilege: Privilege,
    ) -> (r: Result<bool, GuildConfigError>)
        ensures
            match r {
                Ok(b) => conn@.contains_key(self.0.0) && b == forall|i: int|
                    0 <= i < roles@.len() ==> holds(
                        conn@[self.0.0],
                        #[trigger] roles@[i],
                        privilege,
                    ),
                Err(e) => !conn@.contains_key(self.0.0) && e == GuildConfigError::NotFound(self.0),
            },
    {
        let row = match conn.rows.get(&self.0.0) {
            Some(row) => row,
            None => return Err(GuildConfigError::NotFound(self.0)),
        };
        let db_roles = roles_in(row, privilege);
        let mut i: usize = 0;
        while i < roles.len()
            invariant
                i <= roles@.len(),
                conn@.contains_key(self.0.0),
                row@ == conn@[self.0.0],
                role_set(db_roles@) == roles_of(row@, privilege),
                forall|j: int| 0 <= j < i ==> holds(row@, #[trigger] roles@[j], privilege),
            decreases roles@.len() - i,
        {
            if !contains_role(db_roles, roles[i]) {
                assert(!holds(row@, roles@[i as int], privilege));
                return Ok(false);
            }
            i = i + 1;
        }
        Ok(true)
    }

    /// Whether a role holds a privilege.
    pub fn has_privilege(&self, conn: &GuildTable, role: RoleId, privilege: Privilege) -> (r:
        Result<bool, GuildConfigError>)
        ensures
            match r {
                Ok(b) => conn@.contains_key(self.0.0) && b == holds(
                    conn@[self.0.0],
                    role,
                    privilege,
                ),
                Err(e) => !conn@.contains_key(self.0.0) && e == GuildConfigError::NotFound(self.0),
            },
    {
        match conn.rows.get(&self.0.0) {
            Some(row) => Ok(contains_role(roles_in(row, privilege), role)),
            None => Err(GuildConfigError::NotFound(self.0)),
        }
    }

    /// Whether a role has every privilege of `privileges`, as
    /// [`GuildConfig::get_privileges_for`] reports them: an admin role counts
    /// as a manager.
    pub fn has_privileges(&self, conn: &GuildTable, role: RoleId, privileges: &[Privilege]) -> (r:
        Result<bool, GuildConfigError>)
        ensures
            match r {
                Ok(b) => conn@.contains_key(self.0.0) && b == forall|i: int|
                    0 <= i < privileges@.len() ==> privileges_of(conn@[self.0.0], role).contains(
                        #[trigger] privileges@[i],
                    ),
                Err(e) => !conn@.contains_key(self.0.0) && e == GuildConfigError::NotFound(self.0),
            },
    {
        let privs = match self.get_privileges_for(conn, role) {
            Ok(privs) => privs,
            Err(e) => return Err(e),
        };
        let mut i: usize = 0;
        while i < privileges.len()
            invariant
                i <= privileges@.len(),
                conn@.contains_key(self.0.0),
                privs@ == privileges_of(conn@[self.0.0], role),
                forall|j: int|
                    0 <= j < i ==> privs@.contains(#[trigger] privileges@[j]),
            decreases privileges@.len() - i,
        {
            let wanted = privileges[i];
            let mut found = false;
            let mut k: usize = 0;
            while k < privs.len()
                invariant
                    k <= privs@.len(),
                    found ==> privs@.contains(wanted),
                    !found ==> forall|m: int| 0 <= m < k ==> privs@[m] != wanted,
                decreases privs@.len() - k,
            {
                if privs[k] == wanted {
                    assert(privs@[k as int] == wanted);
                    found = true;
                }
                k = k + 1;
            }
            if !found {
                assert(!privs@.contains(privileges@[i as int]));
                return Ok(false);
            }
            i = i + 1;
        }
        Ok(true)
    }

    /// The privileges of a role: `[Admin, Manager]` for an admin role,
    /// `[Manager]` for a manager that is no admin, then `Event` last when it
    /// holds it.
    pub fn get_privileges_for(&self, conn: &GuildTable, role: RoleId) -> (r: Result<
        Vec<Privilege>,
        GuildConfigError,
    >)
        ensures
            match r {
                Ok(v) => conn@.contains_key(self.0.0) && v@ == privileges_of(conn@[self.0.0], role),
                Err(e) => !conn@.contains_key(self.0.0) && e == GuildConfigError::NotFound(self.0),
            },
    {
        let row = match conn.rows.get(&self.0.0) {
            Some(row) => row,
            None => return Err(GuildConfigError::NotFound(self.0)),
        };
        let mut privs: Vec<Privilege> = Vec::with_capacity(3);
        if contains_role(&row.priv_admin, role) {
            privs.push(Privilege::Admin);
            privs.push(Privilege::Manager);
        } else if contains_role(&row.priv_manager, role) {
            privs.push(Privilege::Manager);
        }
        if contains_role(&row.priv_event, role) {
            privs.push(Privilege::Event);
        }
        assert(privs@ =~= privileges_of(row@, role));
        Ok(privs)
    }
}

/// A welcome message within the limit, once set, is read back exactly: the
/// setter accepts it, the row stays, and its welcome message is that text.
pub proof fn lemma_welcome_round_trip(t: Map<u64, GuildRowView>, id: GuildId, s: Seq<char>)
    requires
        t.contains_key(id.0),
        s.len() <= MESSAGE_LIMIT,
    ensures
        !too_long(Some(s)),
        updated(
            t,
            id.0,
            |row: GuildRowView| with_message(row, MessageType::Welcome, Some(s)),
        ).contains_key(id.0),
        updated(
            t,
            id.0,
            |row: GuildRowView| with_message(row, MessageType::Welcome, Some(s)),
        )[id.0].welcome_message == Some(s),
{
}

/// A welcome message over the limit is refused: the setter leaves the
/// table as it was.
pub proof fn lemma_welcome_too_long(s: Seq<char>)
    requires
        s.len() > MESSAGE_LIMIT,
    ensures
        too_long(Some(s)),
{
}

/// A community has no row before its creation and has one after, so that
/// a second creation with the same identifier is refused.
pub proof fn lemma_create_twice(t: Map<u64, GuildRowView>, first: GuildRowView, again: GuildRowView)
    requires
        !t.contains_key(first.id.0),
        again.id == first.id,
    ensures
        created(t, first) is Some,
        created(t, first)->0.contains_key(first.id.0),
        created(t, first)->0[first.id.0] == first,
        created(created(t, first)->0, again) is None,
{
}

/// Granting admin leaves the role both admin and manager, whatever the row
/// held before.
pub proof fn lemma_grant_admin_grants_manager(row: GuildRowView, role: RoleId)
    ensures
        holds(granted(row, role, Privilege::Admin), role, Privilege::Admin),
        holds(granted(row, role, Privilege::Admin), role, Privilege::Manager),
{
}

/// Denying admin leaves the role neither admin nor manager, whatever the
/// row held before and whether or not the denial succeeded.
pub proof fn lemma_deny_admin_denies_manager(row: GuildRowView, role: RoleId)
    ensures
        !holds(denied(row, role, Privilege::Admin), role, Privilege::Admin),
        !holds(denied(row, role, Privilege::Admin), role, Privilege::Manager),
{
}

/// Denying manager to a manager leaves the role neither manager nor admin.
pub proof fn lemma_deny_manager_denies_admin(row: GuildRowView, role: RoleId)
    requires
        holds(row, role, Privilege::Manager),
    ensures
        !holds(denied(row, role, Privilege::Manager), role, Privilege::Manager),
        !holds(denied(row, role, Privilege::Manager), role, Privilege::Admin),
{
}

/// Every grant keeps the rule that admin roles are manager roles.
pub proof fn lemma_grant_keeps_consistent(row: GuildRowView, role: RoleId, privilege: Privilege)
    requires
        consistent(row),
    ensures
        consistent(granted(row, role, privilege)),
{
}

/// Every denial keeps the rule that admin roles are manager roles, whether
/// it succeeds or fails.
pub proof fn lemma_deny_keeps_consistent(row: GuildRowView, role: RoleId, privilege: Privilege)
    requires
        consistent(row),
    ensures
        consistent(denied(row, role, privilege)),
{
}

/// A new row holds no privilege at all, so it obeys the rule.
pub proof fn lemma_fresh_row_consistent(id: GuildId)
    ensures
        consistent(fresh_row(id)),
{
}

/// The reported privileges of a role, case by case: admin and manager
/// exactly for admin roles, manager alone for other manager roles, and
/// event last exactly for event roles.
pub proof fn lemma_privileges_report(row: GuildRowView, role: RoleId)
    ensures
        holds(row, role, Privilege::Admin) ==> privileges_of(row, role).take(2) == seq![
            Privilege::Admin,
            Privilege::Manager,
        ],
        !holds(row, role, Privilege::Admin) && holds(row, role, Privilege::Manager)
            ==> privileges_of(row, role)[0] == Privilege::Manager,
        !holds(row, role, Privilege::Admin) ==> !privileges_of(row, role).contains(
            Privilege::Admin,
        ),
        privileges_of(row, role).contains(Privilege::Event) <==> holds(row, role, Privilege::Event),
        holds(row, role, Privilege::Event) ==> privileges_of(row, role).last() == Privilege::Event,
{
}
} // verus!
