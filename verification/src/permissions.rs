//! Who may run which class of command in which guild.
//!
//! Each guild has one record per permission kind: a floor of native platform
//! permissions that satisfies the kind, and the roles and users to whom it was
//! granted by name. The lists are kept in ascending order.

use std::collections::HashSet;
use vstd::prelude::*;
use crate::cache::{CacheValue, GuildCache};
use crate::error::BotError;
use crate::sorted::{
    contains_id, insert_id, lemma_insert_keeps_sorted, lemma_insert_point_parts,
    lemma_remove_effect, lemma_sort_of_sorted, lemma_sort_sorted, remove_id, sort_ids, sorted,
    spec_insert, spec_remove, spec_sort,
};
use crate::sql::{
    ids_from_sql, ids_to_sql, lemma_sql_ids_round_trip, lemma_sql_round_trip, spec_from_sql,
    spec_ids_from_sql, spec_ids_to_sql, spec_to_sql, SqlId,
};
use crate::tasks::TaskMessage;
use crate::text::same_text;

verus! {

broadcast use vstd::std_specs::hash::group_hash_axioms;

/// The native permission "Administrator".
pub const ADMINISTRATOR: u64 = 0x8;

/// The native permission "Manage Guild".
pub const MANAGE_GUILD: u64 = 0x20;

/// The native permission "Manage Messages".
pub const MANAGE_MESSAGES: u64 = 0x2000;

/// The native permission "Moderate Members".
pub const MODERATE_MEMBERS: u64 = 0x100_0000_0000;

/// Every native permission that the platform library knows: the flags that
/// serenity 0.11.7 defines, bits 0 to 40.
pub const ALL_PERMISSIONS: u64 = 0x1ff_ffff_ffff;

/// Whether `bits` holds known native permissions only.
pub open spec fn valid_bits(bits: u64) -> bool {
    bits & !ALL_PERMISSIONS == 0
}

/// Whether the permissions `held` include all of `needed`.
pub open spec fn covers(held: u64, needed: u64) -> bool {
    held & needed == needed
}

/// Reads a set of native permissions from its bits.
///
/// Trusted: serenity's `Permissions::from_bits` gives the set with exactly
/// these bits where all of them are flags that it defines (bits 0 to 40), and
/// nothing otherwise.
#[verifier::external_body]
pub(crate) fn native_from_bits(bits: u64) -> (r: Option<u64>)
    ensures
        r == (if valid_bits(bits) {
            Some(bits)
        } else {
            None::<u64>
        }),
{
    serenity::model::Permissions::from_bits(bits).map(|p| p.bits())
}

/// The names of the native permissions in `bits`, as the platform library
/// writes them out.
pub uninterp spec fn native_names(bits: u64) -> Seq<char>;

/// Writes out the names of the native permissions in `bits`.
///
/// Trusted: the text is what serenity's `Display` for `Permissions` gives for
/// the known flags among `bits`; it depends on the bits alone.
#[verifier::external_body]
pub(crate) fn describe_native(bits: u64) -> (s: String)
    ensures
        s@ == native_names(bits),
{
    serenity::model::Permissions::from_bits_truncate(bits).to_string()
}

/// The classes of command that can be granted.
#[derive(Hash, Eq, PartialEq, Copy, Clone, Debug, Structural)]
pub enum PermissionType {
    Administrator,
    ManagePermissions,
    ManagePreviews,
    CreateArchive,
    Timeout,
}

impl PermissionType {
    /// The name under which the kind is stored and given as an argument.
    pub open spec fn spec_value(&self) -> Seq<char> {
        match self {
            PermissionType::Administrator => "Administrator"@,
            PermissionType::ManagePermissions => "ManagePermissions"@,
            PermissionType::ManagePreviews => "ManagePreviews"@,
            PermissionType::CreateArchive => "CreateArchive"@,
            PermissionType::Timeout => "Timeout"@,
        }
    }

    /// The name shown to people.
    pub open spec fn spec_display(&self) -> Seq<char> {
        match self {
            PermissionType::Administrator => "Administrator"@,
            PermissionType::ManagePermissions => "Manage Permissions"@,
            PermissionType::ManagePreviews => "Manage Previews"@,
            PermissionType::CreateArchive => "Create Archive"@,
            PermissionType::Timeout => "Timeout"@,
        }
    }

    /// One line on what the kind allows.
    pub open spec fn spec_description(&self) -> Seq<char> {
        match self {
            PermissionType::Administrator => "Access to all permissions"@,
            PermissionType::ManagePermissions => "Manage bot permissions"@,
            PermissionType::ManagePreviews => "Manage preview configuration"@,
            PermissionType::CreateArchive => "Create entries in the archive channel"@,
            PermissionType::Timeout => "Timeout users"@,
        }
    }

    /// The native permissions that satisfy the kind until a guild says otherwise.
    pub open spec fn spec_floor(&self) -> u64 {
        match self {
            PermissionType::Administrator => ADMINISTRATOR,
            PermissionType::ManagePermissions => ADMINISTRATOR,
            PermissionType::ManagePreviews => MANAGE_GUILD,
            PermissionType::CreateArchive => MANAGE_MESSAGES,
            PermissionType::Timeout => MODERATE_MEMBERS,
        }
    }

    /// The name under which the kind is stored and given as an argument.
    pub fn as_value(&self) -> (s: &'static str)
        ensures
            s@ == self.spec_value(),
    {
        match self {
            PermissionType::Administrator => "Administrator",
            PermissionType::ManagePermissions => "ManagePermissions",
            PermissionType::ManagePreviews => "ManagePreviews",
            PermissionType::CreateArchive => "CreateArchive",
            PermissionType::Timeout => "Timeout",
        }
    }

    /// The name shown to people.
    pub fn as_display(&self) -> (s: &'static str)
        ensures
            s@ == self.spec_display(),
    {
        match self {
            PermissionType::Administrator => "Administrator",
            PermissionType::ManagePermissions => "Manage Permissions",
            PermissionType::ManagePreviews => "Manage Previews",
            PermissionType::CreateArchive => "Create Archive",
            PermissionType::Timeout => "Timeout",
        }
    }

    /// One line on what the kind allows.
    pub fn description(&self) -> (s: &'static str)
        ensures
            s@ == self.spec_description(),
    {
        match self {
            PermissionType::Administrator => "Access to all permissions",
            PermissionType::ManagePermissions => "Manage bot permissions",
            PermissionType::ManagePreviews => "Manage preview configuration",
            PermissionType::CreateArchive => "Create entries in the archive channel",
            PermissionType::Timeout => "Timeout users",
        }
    }

    /// The native permissions that satisfy the kind until a guild says otherwise.
    pub fn floor(&self) -> (bits: u64)
        ensures
            bits == self.spec_floor(),
    {
        match self {
            PermissionType::Administrator => ADMINISTRATOR,
            PermissionType::ManagePermissions => ADMINISTRATOR,
            PermissionType::ManagePreviews => MANAGE_GUILD,
            PermissionType::CreateArchive => MANAGE_MESSAGES,
            PermissionType::Timeout => MODERATE_MEMBERS,
        }
    }

    /// The kind that a stored name stands for, if it stands for one.
    pub open spec fn spec_from_string(from: Seq<char>) -> Option<PermissionType> {
        if from == "Administrator"@ {
            Some(PermissionType::Administrator)
        } else if from == "ManagePermissions"@ {
            Some(PermissionType::ManagePermissions)
        } else if from == "ManagePreviews"@ {
            Some(PermissionType::ManagePreviews)
        } else if from == "CreateArchive"@ {
            Some(PermissionType::CreateArchive)
        } else if from == "Timeout"@ {
            Some(PermissionType::Timeout)
        } else {
            None
        }
    }

    /// Reads the stored name of a kind.
    pub fn from_string(from: &str) -> (r: Result<Self, BotError>)
        ensures
            match r {
                Ok(ty) => from@ == ty.spec_value() && Self::spec_from_string(from@) == Some(ty),
                Err(e) => {
                    &&& forall|ty: PermissionType| from@ != ty.spec_value()
                    &&& Self::spec_from_string(from@) is None
                    &&& e.is_invalid_request("Invalid permission name "@ + from@)
                },
            },
    {
        if same_text(from, "Administrator") {
            Ok(PermissionType::Administrator)
        } else if same_text(from, "ManagePermissions") {
            Ok(PermissionType::ManagePermissions)
        } else if same_text(from, "ManagePreviews") {
            Ok(PermissionType::ManagePreviews)
        } else if same_text(from, "CreateArchive") {
            Ok(PermissionType::CreateArchive)
        } else if same_text(from, "Timeout") {
            Ok(PermissionType::Timeout)
        } else {
            let mut msg = String::from_str("Invalid permission name ");
            msg.append(from);
            Err(BotError::InvalidRequest(msg))
        }
    }
}

/// The floor of every kind holds known native permissions only.
pub proof fn lemma_floors_valid()
    ensures
        forall|ty: PermissionType| valid_bits(#[trigger] ty.spec_floor()),
{
    assert(0x8u64 & !0x1ff_ffff_ffffu64 == 0) by (bit_vector);
    assert(0x20u64 & !0x1ff_ffff_ffffu64 == 0) by (bit_vector);
    assert(0x2000u64 & !0x1ff_ffff_ffffu64 == 0) by (bit_vector);
    assert(0x100_0000_0000u64 & !0x1ff_ffff_ffffu64 == 0) by (bit_vector);
}

/// What one record holds, as plain values.
pub struct PermissionRecord {
    /// The native permissions that satisfy the kind.
    pub floor: u64,
    /// The roles to which the kind was granted.
    pub roles: Seq<u64>,
    /// The users to whom the kind was granted.
    pub users: Seq<u64>,
}

/// The invariant of a record: known native permissions and sorted lists.
pub open spec fn record_wf(r: PermissionRecord) -> bool {
    valid_bits(r.floor) && sorted(r.roles) && sorted(r.users)
}

/// The record of a kind that no one has changed.
pub open spec fn default_record(ty: PermissionType) -> PermissionRecord {
    PermissionRecord { floor: ty.spec_floor(), roles: Seq::empty(), users: Seq::empty() }
}

/// The record of one permission kind in one guild.
#[derive(Debug)]
pub struct GuildPermissionData {
    discord: u64,
    roles: Vec<u64>,
    users: Vec<u64>,
}

impl View for GuildPermissionData {
    type V = PermissionRecord;

    closed spec fn view(&self) -> PermissionRecord {
        PermissionRecord { floor: self.discord, roles: self.roles@, users: self.users@ }
    }
}

impl GuildPermissionData {
    /// The invariant of the type.
    pub open spec fn wf(&self) -> bool {
        record_wf(self@)
    }

    fn new(permissions: u64) -> (d: Self)
        ensures
            d@ == (PermissionRecord { floor: permissions, roles: Seq::empty(), users: Seq::empty() }),
    {
        GuildPermissionData { discord: permissions, roles: Vec::new(), users: Vec::new() }
    }

    /// The record of a kind that no one has changed.
    pub fn default(ty: &PermissionType) -> (d: Self)
        ensures
            d@ == default_record(*ty),
            d.wf(),
    {
        proof {
            lemma_floors_valid();
        }
        Self::new(ty.floor())
    }

    /// The native permissions that satisfy the kind.
    pub fn discord(&self) -> (bits: u64)
        ensures
            bits == self@.floor,
    {
        self.discord
    }

    /// The roles to which the kind was granted.
    pub fn roles(&self) -> (ids: &Vec<u64>)
        ensures
            ids@ == self@.roles,
    {
        &self.roles
    }

    /// The users to whom the kind was granted.
    pub fn users(&self) -> (ids: &Vec<u64>)
        ensures
            ids@ == self@.users,
    {
        &self.users
    }
}

/// A row of the durable permission table: one per guild and kind ever touched.
/// Ids and the floor are kept as signed 64-bit values, bit for bit.
#[derive(Debug, Clone, PartialEq, Eq)]
pub struct PermissionRow {
    pub guild_id: i64,
    pub kind: PermissionType,
    pub overwrites: i64,
    pub roles: Vec<i64>,
    pub users: Vec<i64>,
}

/// Whether `row` is the durable form of `record` for this guild and kind.
pub open spec fn row_holds(
    row: PermissionRow,
    guild: u64,
    ty: PermissionType,
    record: PermissionRecord,
) -> bool {
    &&& row.guild_id == spec_to_sql(guild)
    &&& row.kind == ty
    &&& row.overwrites == spec_to_sql(record.floor)
    &&& row.roles@ == spec_ids_to_sql(record.roles)
    &&& row.users@ == spec_ids_to_sql(record.users)
}

/// Whether a row can be loaded: its floor holds known native permissions only.
pub fn valid_row(row: &PermissionRow) -> (r: bool)
    ensures
        r == valid_bits(spec_from_sql(row.overwrites)),
{
    native_from_bits(SqlId::decode(row.overwrites).0).is_some()
}

/// The record that loading `row` gives: its floor, and its lists put in order.
pub open spec fn record_of_row(row: PermissionRow) -> PermissionRecord {
    PermissionRecord {
        floor: spec_from_sql(row.overwrites),
        roles: spec_sort(spec_ids_from_sql(row.roles@)),
        users: spec_sort(spec_ids_from_sql(row.users@)),
    }
}

/// The record after granting the kind to a user, a role, or both.
pub open spec fn spec_grant(r: PermissionRecord, user: Option<u64>, role: Option<u64>) -> PermissionRecord {
    PermissionRecord {
        floor: r.floor,
        roles: match role {
            Some(id) => spec_insert(r.roles, id),
            None => r.roles,
        },
        users: match user {
            Some(id) => spec_insert(r.users, id),
            None => r.users,
        },
    }
}

/// The record after taking the grant back from a user, a role, or both. A
/// list that does not hold the id stays as it is.
pub open spec fn spec_revoke(r: PermissionRecord, user: Option<u64>, role: Option<u64>) -> PermissionRecord {
    PermissionRecord {
        floor: r.floor,
        roles: match role {
            Some(id) => spec_remove(r.roles, id),
            None => r.roles,
        },
        users: match user {
            Some(id) => spec_remove(r.users, id),
            None => r.users,
        },
    }
}

/// What a revocation found.
#[derive(Debug, Clone, Copy, PartialEq, Eq, Structural)]
pub struct RevokeReport {
    /// False where a user was named and the list did not hold it.
    pub user_found: bool,
    /// False where a role was named and the list did not hold it.
    pub role_found: bool,
}

/// The records of all permission kinds in one guild.
#[derive(Debug)]
pub struct GuildPermissionEntry {
    administrator: GuildPermissionData,
    manage_permissions: GuildPermissionData,
    manage_previews: GuildPermissionData,
    create_archive: GuildPermissionData,
    timeout: GuildPermissionData,
    guild_id: u64,
}

impl GuildPermissionEntry {
    /// The guild that the records belong to.
    pub closed spec fn guild(&self) -> u64 {
        self.guild_id
    }

    /// The stored record of a kind.
    pub closed spec fn data(&self, ty: PermissionType) -> GuildPermissionData {
        match ty {
            PermissionType::Administrator => self.administrator,
            PermissionType::ManagePermissions => self.manage_permissions,
            PermissionType::ManagePreviews => self.manage_previews,
            PermissionType::CreateArchive => self.create_archive,
            PermissionType::Timeout => self.timeout,
        }
    }

    /// The record of a kind, as plain values.
    pub open spec fn record(&self, ty: PermissionType) -> PermissionRecord {
        self.data(ty)@
    }

    /// The invariant of the type: every kind has a well-formed record.
    pub open spec fn wf(&self) -> bool {
        forall|ty: PermissionType| record_wf(#[trigger] self.record(ty))
    }

    /// Whether every record is the default one.
    pub open spec fn all_default(&self) -> bool {
        forall|ty: PermissionType| #[trigger] self.record(ty) == default_record(ty)
    }

    fn new(guild_id: u64) -> (entry: Self)
        ensures
            entry.guild() == guild_id,
            entry.all_default(),
            entry.wf(),
    {
        proof {
            lemma_floors_valid();
        }
        let entry = GuildPermissionEntry {
            administrator: GuildPermissionData::default(&PermissionType::Administrator),
            manage_permissions: GuildPermissionData::default(&PermissionType::ManagePermissions),
            manage_previews: GuildPermissionData::default(&PermissionType::ManagePreviews),
            create_archive: GuildPermissionData::default(&PermissionType::CreateArchive),
            timeout: GuildPermissionData::default(&PermissionType::Timeout),
            guild_id,
        };
        assert(entry.all_default()) by {
            assert forall|ty: PermissionType| #[trigger] entry.record(ty) == default_record(
                ty,
            ) by {
                match ty {
                    PermissionType::Administrator => {},
                    PermissionType::ManagePermissions => {},
                    PermissionType::ManagePreviews => {},
                    PermissionType::CreateArchive => {},
                    PermissionType::Timeout => {},
                }
            }
        }
        entry
    }

    /// The id of the guild that the records belong to.
    pub fn guild_id(&self) -> (id: u64)
        ensures
            id == self.guild(),
    {
        self.guild_id
    }

    /// The record of a kind.
    pub fn get(&self, ty: &PermissionType) -> (d: &GuildPermissionData)
        ensures
            *d == self.data(*ty),
    {
        match ty {
            PermissionType::Administrator => &self.administrator,
            PermissionType::ManagePermissions => &self.manage_permissions,
            PermissionType::ManagePreviews => &self.manage_previews,
            PermissionType::CreateArchive => &self.create_archive,
            PermissionType::Timeout => &self.timeout,
        }
    }

    fn get_mut(&mut self, ty: &PermissionType) -> (d: &mut GuildPermissionData)
        ensures
            *d == old(self).data(*ty),
            final(self).guild() == old(self).guild(),
            final(self).data(*ty) == *final(d),
            forall|o: PermissionType| o != *ty ==> final(self).data(o) == old(self).data(o),
    {
        match ty {
            PermissionType::Administrator => &mut self.administrator,
            PermissionType::ManagePermissions => &mut self.manage_permissions,
            PermissionType::ManagePreviews => &mut self.manage_previews,
            PermissionType::CreateArchive => &mut self.create_archive,
            PermissionType::Timeout => &mut self.timeout,
        }
    }

    /// The durable row for the record of a kind.
    pub fn row(&self, ty: &PermissionType) -> (row: PermissionRow)
        ensures
            row_holds(row, self.guild(), *ty, self.record(*ty)),
    {
        let data = self.get(ty);
        PermissionRow {
            guild_id: SqlId(self.guild_id).encode(),
            kind: *ty,
            overwrites: SqlId(data.discord).encode(),
            roles: ids_to_sql(&data.roles),
            users: ids_to_sql(&data.users),
        }
    }

    /// Replaces the record of the row's kind by what the row holds. This is
    /// for loading at start-up: nothing is written back.
    pub fn hydrate(&mut self, row: &PermissionRow)
        requires
            old(self).wf(),
            valid_bits(spec_from_sql(row.overwrites)),
        ensures
            final(self).wf(),
            final(self).guild() == old(self).guild(),
            final(self).record(row.kind) == record_of_row(*row),
            forall|o: PermissionType| o != row.kind ==> final(self).data(o) == old(self).data(o),
    {
        let bits = native_from_bits(SqlId::decode(row.overwrites).0).unwrap();
        let roles = sort_ids(&ids_from_sql(&row.roles));
        let users = sort_ids(&ids_from_sql(&row.users));
        let data = self.get_mut(&row.kind);
        data.discord = bits;
        data.roles = roles;
        data.users = users;
        proof {
            assert forall|ty: PermissionType| record_wf(#[trigger] final(self).record(ty)) by {
                if ty != row.kind {
                    assert(final(self).data(ty) == old(self).data(ty));
                    assert(record_wf(old(self).record(ty)));
                }
            }
        }
    }

    /// Hands the record of a kind to `mutator`, stores the record that it gives
    /// back, and returns the row that must now be written to the durable
    /// table, together with the mutator's own result.
    pub fn set<R, F: FnOnce(GuildPermissionData) -> (GuildPermissionData, R)>(
        &mut self,
        ty: &PermissionType,
        mutator: F,
    ) -> (out: (PermissionRow, R))
        requires
            old(self).wf(),
            call_requires(mutator, (old(self).data(*ty),)),
            forall|o: (GuildPermissionData, R)|
                call_ensures(mutator, (old(self).data(*ty),), o) ==> o.0.wf(),
        ensures
            final(self).wf(),
            final(self).guild() == old(self).guild(),
            forall|o: PermissionType| o != *ty ==> final(self).data(o) == old(self).data(o),
            call_ensures(mutator, (old(self).data(*ty),), (final(self).data(*ty), out.1)),
            row_holds(out.0, final(self).guild(), *ty, final(self).record(*ty)),
    {
        let mut taken = GuildPermissionData::new(0);
        core::mem::swap(self.get_mut(ty), &mut taken);
        assert(taken == old(self).data(*ty));
        let (next, result) = mutator(taken);
        let ghost stored = next;
        assert(call_ensures(mutator, (old(self).data(*ty),), (stored, result)));
        assert(stored.wf());
        let mut next = next;
        core::mem::swap(self.get_mut(ty), &mut next);
        proof {
            assert(self.data(*ty) == stored);
            assert forall|k: PermissionType| record_wf(#[trigger] self.record(k)) by {
                if k != *ty {
                    assert(self.data(k) == old(self).data(k));
                    assert(record_wf(old(self).record(k)));
                }
            }
        }
        let row = self.row(ty);
        (row, result)
    }

    /// Grants the kind to a user, a role, or both, and returns the row to write.
    pub fn add(&mut self, ty: &PermissionType, user: Option<u64>, role: Option<u64>) -> (row:
        PermissionRow)
        requires
            old(self).wf(),
        ensures
            final(self).wf(),
            final(self).guild() == old(self).guild(),
            forall|o: PermissionType| o != *ty ==> final(self).data(o) == old(self).data(o),
            final(self).record(*ty) == spec_grant(old(self).record(*ty), user, role),
            row_holds(row, final(self).guild(), *ty, final(self).record(*ty)),
    {
        assert(record_wf(self.record(*ty)));
        let grant = |data: GuildPermissionData| -> (o: (GuildPermissionData, ()))
            requires
                data.wf(),
            ensures
                o.0.wf(),
                o.0@ == spec_grant(data@, user, role),
            {
                let mut d = data;
                if let Some(id) = user {
                    insert_id(&mut d.users, id);
                }
                if let Some(id) = role {
                    insert_id(&mut d.roles, id);
                }
                (d, ())
            };
        let (row, _) = self.set(ty, grant);
        row
    }

    /// Takes the grant back from a user, a role, or both. Each list is handled
    /// on its own: an id that one list does not hold is reported, and the other
    /// list is still changed. The row to write is returned in every case.
    pub fn remove(&mut self, ty: &PermissionType, user: Option<u64>, role: Option<u64>) -> (out: (
        PermissionRow,
        RevokeReport,
    ))
        requires
            old(self).wf(),
        ensures
            final(self).wf(),
            final(self).guild() == old(self).guild(),
            forall|o: PermissionType| o != *ty ==> final(self).data(o) == old(self).data(o),
            final(self).record(*ty) == spec_revoke(old(self).record(*ty), user, role),
            out.1.user_found == (user matches Some(id) ==> old(self).record(*ty).users.contains(
                id,
            )),
            out.1.role_found == (role matches Some(id) ==> old(self).record(*ty).roles.contains(
                id,
            )),
            row_holds(out.0, final(self).guild(), *ty, final(self).record(*ty)),
    {
        assert(record_wf(self.record(*ty)));
        let revoke = |data: GuildPermissionData| -> (o: (GuildPermissionData, RevokeReport))
            requires
                data.wf(),
            ensures
                o.0.wf(),
                o.0@ == spec_revoke(data@, user, role),
                o.1.user_found == (user matches Some(id) ==> data@.users.contains(id)),
                o.1.role_found == (role matches Some(id) ==> data@.roles.contains(id)),
            {
                let mut d = data;
                let mut user_found = true;
                let mut role_found = true;
                if let Some(id) = user {
                    user_found = remove_id(&mut d.users, id);
                }
                if let Some(id) = role {
                    role_found = remove_id(&mut d.roles, id);
                }
                (d, RevokeReport { user_found, role_found })
            };
        self.set(ty, revoke)
    }

    /// Replaces the floor of a kind and returns the row to write.
    pub fn set_floor(&mut self, ty: &PermissionType, bits: u64) -> (row: PermissionRow)
        requires
            old(self).wf(),
            valid_bits(bits),
        ensures
            final(self).wf(),
            final(self).guild() == old(self).guild(),
            forall|o: PermissionType| o != *ty ==> final(self).data(o) == old(self).data(o),
            final(self).record(*ty) == (PermissionRecord {
                floor: bits,
                roles: old(self).record(*ty).roles,
                users: old(self).record(*ty).users,
            }),
            row_holds(row, final(self).guild(), *ty, final(self).record(*ty)),
    {
        assert(record_wf(self.record(*ty)));
        let replace = |data: GuildPermissionData| -> (o: (GuildPermissionData, ()))
            requires
                data.wf(),
            ensures
                o.0.wf(),
                o.0@ == (PermissionRecord { floor: bits, roles: data@.roles, users: data@.users }),
            {
                let mut d = data;
                d.discord = bits;
                (d, ())
            };
        let (row, _) = self.set(ty, replace);
        row
    }
}

impl CacheValue for GuildPermissionEntry {
    open spec fn inv(&self) -> bool {
        self.wf()
    }

    open spec fn is_default(&self, key: u64) -> bool {
        self.guild() == key && self.all_default()
    }

    fn fresh(key: u64) -> (v: Self) {
        GuildPermissionEntry::new(key)
    }
}

/// What the checks read of a role.
#[derive(Debug, Clone, Copy, PartialEq, Eq, Structural)]
pub struct Role {
    pub id: u64,
    pub guild_id: u64,
    /// The native permissions that the role carries.
    pub permissions: u64,
    /// The rank of the role in its guild; higher is stronger.
    pub position: i64,
}

/// All native permissions that the roles carry together.
pub open spec fn union_permissions(roles: Seq<Role>) -> u64
    decreases roles.len(),
{
    if roles.len() == 0 {
        0
    } else {
        union_permissions(roles.drop_last()) | roles.last().permissions
    }
}

/// Whether one of the roles is among the granted ones.
pub open spec fn holds_granted_role(roles: Seq<Role>, granted: Seq<u64>) -> bool {
    exists|i: int| 0 <= i < roles.len() && granted.contains((#[trigger] roles[i]).id)
}

/// Whether an actor with these roles satisfies a record: the roles carry the
/// whole of a non-empty floor, or the user or one of the roles was granted
/// the kind by name.
pub open spec fn satisfies(record: PermissionRecord, user: u64, roles: Seq<Role>) -> bool {
    ||| record.floor > 0 && covers(union_permissions(roles), record.floor)
    ||| record.users.contains(user)
    ||| holds_granted_role(roles, record.roles)
}

/// Whether an action is allowed: the actor is in the sudo set, owns the guild,
/// satisfies the `Administrator` record, or satisfies the record of the kind
/// that the action asks for.
pub open spec fn allowed(
    sudo: Set<u64>,
    administrator: PermissionRecord,
    wanted: PermissionRecord,
    owner: u64,
    user: u64,
    roles: Seq<Role>,
) -> bool {
    ||| sudo.contains(user)
    ||| owner == user
    ||| satisfies(administrator, user, roles)
    ||| satisfies(wanted, user, roles)
}

/// The guilds that the rows are about.
pub open spec fn row_guilds(rows: Seq<PermissionRow>) -> Set<u64> {
    Set::new(|g: u64| exists|i: int| 0 <= i < rows.len() && spec_from_sql((#[trigger] rows[i]).guild_id) == g)
}

/// The record that results from loading `rows` in order over `before`: that of
/// the last row for this guild and kind, if there is one.
pub open spec fn loaded_record(
    rows: Seq<PermissionRow>,
    guild: u64,
    ty: PermissionType,
    before: PermissionRecord,
) -> PermissionRecord
    decreases rows.len(),
{
    if rows.len() == 0 {
        before
    } else if spec_from_sql(rows.last().guild_id) == guild && rows.last().kind == ty {
        record_of_row(rows.last())
    } else {
        loaded_record(rows.drop_last(), guild, ty, before)
    }
}

/// A copy of a list of ids.
pub fn copy_ids(ids: &Vec<u64>) -> (out: Vec<u64>)
    ensures
        out@ == ids@,
{
    let mut out: Vec<u64> = Vec::new();
    let mut i: usize = 0;
    while i < ids.len()
        invariant
            i <= ids.len(),
            out@ == ids@.take(i as int),
        decreases ids.len() - i,
    {
        out.push(ids[i]);
        i += 1;
        assert(out@ =~= ids@.take(i as int));
    }
    assert(ids@.take(ids.len() as int) =~= ids@);
    out
}

/// The native permissions that the roles carry together.
pub fn highest_permissions(roles: &Vec<Role>) -> (bits: u64)
    ensures
        bits == union_permissions(roles@),
{
    let mut bits: u64 = 0;
    let mut i: usize = 0;
    assert(roles@.take(0) =~= Seq::<Role>::empty());
    while i < roles.len()
        invariant
            i <= roles.len(),
            bits == union_permissions(roles@.take(i as int)),
        decreases roles.len() - i,
    {
        assert(roles@.take(i + 1).drop_last() =~= roles@.take(i as int));
        bits = bits | roles[i].permissions;
        i += 1;
    }
    assert(roles@.take(roles.len() as int) =~= roles@);
    bits
}

/// The registry of permissions: one cached entry per guild, and the users who
/// pass every check.
#[derive(Debug)]
pub struct PermissionsModule {
    guild_cache: GuildCache<GuildPermissionEntry>,
    sudo_users: HashSet<u64>,
}

impl PermissionsModule {
    /// The cache of guild entries.
    pub closed spec fn cache(&self) -> GuildCache<GuildPermissionEntry> {
        self.guild_cache
    }

    /// The users who bypass every check. The set is never persisted.
    pub closed spec fn sudo(&self) -> Set<u64> {
        self.sudo_users@
    }

    /// The invariant of the type: entries are well formed and stand under the
    /// id of their own guild.
    pub open spec fn wf(&self) -> bool {
        &&& self.cache().wf()
        &&& forall|g: u64| self.cache()@.contains_key(g) ==> (#[trigger] self.cache()@[g]).guild() == g
    }

    /// Whether the cache is the other one with the entry of `guild` stored:
    /// the guild has an entry now, and every other guild has the entry that it
    /// had, or none as before.
    pub open spec fn touched(&self, other: &PermissionsModule, guild: u64) -> bool {
        &&& self.cache()@.contains_key(guild)
        &&& self.cache()@ == other.cache()@.insert(guild, self.cache()@[guild])
    }

    /// Whether the cache is the other one with `guild` populated: the guild
    /// has the entry that it had, or a default entry where it had none.
    pub open spec fn populated(&self, other: &PermissionsModule, guild: u64) -> bool {
        &&& self.touched(other, guild)
        &&& other.cache().observes(guild, self.cache()@[guild])
    }

    /// What a check leaves of the cache: nothing is touched for a user of the
    /// sudo set or the owner; for anyone else the guild is populated.
    pub open spec fn after_check(
        &self,
        other: &PermissionsModule,
        guild: u64,
        owner: u64,
        user: u64,
    ) -> bool {
        if other.sudo().contains(user) || owner == user {
            self.cache()@ == other.cache()@
        } else {
            self.populated(other, guild)
        }
    }

    /// The record of a kind in a guild as every operation finds it: the cached
    /// one, or the default where the guild has no entry yet.
    pub open spec fn record_at(&self, guild: u64, ty: PermissionType) -> PermissionRecord {
        if self.cache()@.contains_key(guild) {
            self.cache()@[guild].record(ty)
        } else {
            default_record(ty)
        }
    }

    /// What `check` answers: nothing where the action is allowed, else the
    /// kind that is missing.
    pub open spec fn spec_check(
        &self,
        ty: PermissionType,
        guild: u64,
        owner: u64,
        user: u64,
        roles: Seq<Role>,
    ) -> Option<PermissionType> {
        if allowed(
            self.sudo(),
            self.record_at(guild, PermissionType::Administrator),
            self.record_at(guild, ty),
            owner,
            user,
            roles,
        ) {
            None
        } else {
            Some(ty)
        }
    }

    /// A registry without entries and without sudo users.
    pub fn new() -> (m: Self)
        ensures
            m.wf(),
            m.cache()@ == Map::<u64, GuildPermissionEntry>::empty(),
            m.sudo() == Set::<u64>::empty(),
    {
        PermissionsModule { guild_cache: GuildCache::new(), sudo_users: HashSet::new() }
    }

    /// Adds a user to the set of those who bypass every check.
    pub fn sudo_add(&mut self, user: u64)
        ensures
            final(self).sudo() == old(self).sudo().insert(user),
            final(self).cache() == old(self).cache(),
    {
        let _ = self.sudo_users.insert(user);
    }

    /// Takes a user out of the set of those who bypass every check.
    pub fn sudo_remove(&mut self, user: u64)
        ensures
            final(self).sudo() == old(self).sudo().remove(user),
            final(self).cache() == old(self).cache(),
    {
        let _ = self.sudo_users.remove(&user);
    }

    fn entry_perms_check(
        ty: &PermissionType,
        entry: &GuildPermissionEntry,
        highest: u64,
        user: u64,
        roles: &Vec<Role>,
    ) -> (r: bool)
        requires
            entry.wf(),
            highest == union_permissions(roles@),
        ensures
            r == satisfies(entry.record(*ty), user, roles@),
    {
        let data = entry.get(ty);
        assert(record_wf(entry.record(*ty)));
        if data.discord > 0 && (highest & data.discord) == data.discord {
            return true;
        }
        if contains_id(&data.users, user) {
            return true;
        }
        let mut i: usize = 0;
        while i < roles.len()
            invariant
                i <= roles.len(),
                sorted(data@.roles),
                data.roles@ == data@.roles,
                data@ == entry.record(*ty),
                forall|j: int| 0 <= j < i ==> !data@.roles.contains((#[trigger] roles@[j]).id),
            decreases roles.len() - i,
        {
            if contains_id(&data.roles, roles[i].id) {
                assert(data@.roles.contains(roles@[i as int].id));
                assert(holds_granted_role(roles@, entry.record(*ty).roles));
                return true;
            }
            i += 1;
        }
        false
    }

    /// Decides whether `user` may do what `ty` guards in `guild`. The answer
    /// is nothing where the action is allowed, else the kind that is missing.
    /// The sudo set and the owner are looked at before the cache is touched;
    /// otherwise a guild without an entry gets its default entry.
    pub fn check(
        &mut self,
        ty: &PermissionType,
        guild: u64,
        owner: u64,
        user: u64,
        roles: &Vec<Role>,
    ) -> (r: Option<PermissionType>)
        requires
            old(self).wf(),
        ensures
            r == old(self).spec_check(*ty, guild, owner, user, roles@),
            final(self).wf(),
            final(self).sudo() == old(self).sudo(),
            final(self).after_check(old(self), guild, owner, user),
            forall|g: u64, k: PermissionType| final(self).record_at(g, k) == old(self).record_at(g, k),
    {
        if self.sudo_users.contains(&user) {
            return None;
        }
        if owner == user {
            return None;
        }
        let highest = highest_permissions(roles);
        let entry = self.guild_cache.entry(guild);
        let pass = Self::entry_perms_check(
            &PermissionType::Administrator,
            entry,
            highest,
            user,
            roles,
        ) || Self::entry_perms_check(ty, entry, highest, user, roles);
        proof {
            assert forall|g: u64, k: PermissionType| final(self).record_at(g, k) == old(
                self,
            ).record_at(g, k) by {
                if g == guild && !old(self).cache()@.contains_key(guild) {
                    assert(final(self).cache()@[guild].all_default());
                }
            }
        }
        if pass {
            None
        } else {
            Some(*ty)
        }
    }

    /// Loads the persisted rows into the cache, in order. This must be done
    /// before checks are trusted; nothing is written back.
    pub fn initialize(&mut self, rows: &Vec<PermissionRow>)
        requires
            old(self).wf(),
            forall|i: int|
                0 <= i < rows.len() ==> valid_bits(spec_from_sql((#[trigger] rows@[i]).overwrites)),
        ensures
            final(self).wf(),
            final(self).sudo() == old(self).sudo(),
            forall|g: u64|
                final(self).cache()@.contains_key(g) <==> old(self).cache()@.contains_key(g)
                    || row_guilds(rows@).contains(g),
            forall|g: u64, k: PermissionType|
                final(self).record_at(g, k) == loaded_record(rows@, g, k, old(self).record_at(g, k)),
    {
        let mut i: usize = 0;
        assert(rows@.take(0) =~= Seq::<PermissionRow>::empty());
        while i < rows.len()
            invariant
                i <= rows.len(),
                self.wf(),
                self.sudo() == old(self).sudo(),
                forall|j: int|
                    0 <= j < rows.len() ==> valid_bits(
                        spec_from_sql((#[trigger] rows@[j]).overwrites),
                    ),
                forall|g: u64, k: PermissionType|
                    self.record_at(g, k) == loaded_record(
                        rows@.take(i as int),
                        g,
                        k,
                        old(self).record_at(g, k),
                    ),
                forall|g: u64|
                    self.cache()@.contains_key(g) <==> old(self).cache()@.contains_key(g)
                        || row_guilds(rows@.take(i as int)).contains(g),
            decreases rows.len() - i,
        {
            let row = &rows[i];
            let guild = SqlId::decode(row.guild_id).0;
            let ghost before = *self;
            let entry = self.guild_cache.entry_mut(guild);
            let ghost found = *entry;
            entry.hydrate(row);
            proof {
                let next = rows@.take(i + 1);
                assert(next.drop_last() =~= rows@.take(i as int));
                assert(next.last() == rows@[i as int]);
                assert(self.cache()@.contains_key(guild));
                assert(self.cache()@ =~= before.cache()@.insert(guild, self.cache()@[guild]));
                assert(self.cache()@[guild].guild() == guild);
                assert forall|k: PermissionType| found.record(k) == before.record_at(guild, k) by {
                    if !before.cache()@.contains_key(guild) {
                        assert(found.record(k) == default_record(k));
                    }
                }
                assert forall|g: u64|
                    self.cache()@.contains_key(g) <==> old(self).cache()@.contains_key(g)
                        || row_guilds(next).contains(g) by {
                    let done = rows@.take(i as int);
                    assert(before.cache()@.contains_key(g) <==> old(self).cache()@.contains_key(g)
                        || row_guilds(done).contains(g));
                    if row_guilds(done).contains(g) {
                        let j = choose|j: int|
                            0 <= j < done.len() && spec_from_sql((#[trigger] done[j]).guild_id) == g;
                        assert(next[j] == done[j]);
                    }
                    if g == guild {
                        assert(spec_from_sql(next[i as int].guild_id) == g);
                    }
                    if row_guilds(next).contains(g) {
                        let j = choose|j: int|
                            0 <= j < next.len() && spec_from_sql((#[trigger] next[j]).guild_id) == g;
                        if j < i {
                            assert(done[j] == next[j]);
                        }
                    }
                }
                assert forall|g: u64, k: PermissionType|
                    self.record_at(g, k) == loaded_record(next, g, k, old(self).record_at(g, k)) by {
                    assert(before.record_at(g, k) == loaded_record(
                        rows@.take(i as int),
                        g,
                        k,
                        old(self).record_at(g, k),
                    ));
                    if g == guild {
                        if k != row.kind {
                            assert(self.cache()@[guild].data(k) == found.data(k));
                            assert(self.record_at(g, k) == found.record(k));
                            assert(found.record(k) == before.record_at(guild, k));
                        } else {
                            assert(self.record_at(g, k) == record_of_row(*row));
                        }
                    } else {
                        assert(self.cache()@.contains_key(g) == before.cache()@.contains_key(g));
                        if self.cache()@.contains_key(g) {
                            assert(self.cache()@[g] == before.cache()@[g]);
                        }
                    }
                }
            }
            i += 1;
        }
        assert(rows@.take(rows.len() as int) =~= rows@);
    }

    /// Replaces the floor of a kind in a guild. The returned row must be
    /// written to the durable table before the caller is answered.
    pub fn set_floor(&mut self, guild: u64, ty: &PermissionType, bits: u64) -> (row: PermissionRow)
        requires
            old(self).wf(),
            valid_bits(bits),
        ensures
            final(self).wf(),
            final(self).sudo() == old(self).sudo(),
            final(self).touched(old(self), guild),
            final(self).record_at(guild, *ty) == (PermissionRecord {
                floor: bits,
                roles: old(self).record_at(guild, *ty).roles,
                users: old(self).record_at(guild, *ty).users,
            }),
            forall|g: u64, k: PermissionType|
                g != guild || k != *ty ==> final(self).record_at(g, k) == old(self).record_at(g, k),
            row_holds(row, guild, *ty, final(self).record_at(guild, *ty)),
    {
        let ghost before = *self;
        let entry = self.guild_cache.entry_mut(guild);
        let ghost found = *entry;
        let row = entry.set_floor(ty, bits);
        proof {
            assert(self.cache()@.contains_key(guild));
            assert(self.cache()@ =~= before.cache()@.insert(guild, self.cache()@[guild]));
            assert(self.cache()@[guild].guild() == guild);
            assert forall|k: PermissionType| found.record(k) == before.record_at(guild, k) by {
                if !before.cache()@.contains_key(guild) {
                    assert(found.record(k) == default_record(k));
                }
            }
            assert forall|g: u64, k: PermissionType| g != guild || k != *ty implies self.record_at(
                g,
                k,
            ) == before.record_at(g, k) by {
                if g == guild {
                    assert(self.cache()@[guild].data(k) == found.data(k));
                    assert(self.record_at(g, k) == found.record(k));
                    assert(found.record(k) == before.record_at(guild, k));
                } else {
                    assert(self.cache()@.contains_key(g) == before.cache()@.contains_key(g));
                    if self.cache()@.contains_key(g) {
                        assert(self.cache()@[g] == before.cache()@[g]);
                    }
                }
            }
        }
        row
    }

    /// Grants a kind to a user, a role, or both. The returned row must be
    /// written to the durable table before the caller is answered.
    pub fn grant(
        &mut self,
        guild: u64,
        ty: &PermissionType,
        user: Option<u64>,
        role: Option<u64>,
    ) -> (row: PermissionRow)
        requires
            old(self).wf(),
        ensures
            final(self).wf(),
            final(self).sudo() == old(self).sudo(),
            final(self).touched(old(self), guild),
            final(self).record_at(guild, *ty) == spec_grant(
                old(self).record_at(guild, *ty),
                user,
                role,
            ),
            forall|g: u64, k: PermissionType|
                g != guild || k != *ty ==> final(self).record_at(g, k) == old(self).record_at(g, k),
            row_holds(row, guild, *ty, final(self).record_at(guild, *ty)),
    {
        let ghost before = *self;
        let entry = self.guild_cache.entry_mut(guild);
        let ghost found = *entry;
        let row = entry.add(ty, user, role);
        proof {
            assert(self.cache()@.contains_key(guild));
            assert(self.cache()@ =~= before.cache()@.insert(guild, self.cache()@[guild]));
            assert(forall|o: PermissionType| o != *ty ==> self.cache()@[guild].data(o) == found.data(o));
            assert(self.cache()@[guild].guild() == guild);
            assert forall|k: PermissionType| found.record(k) == before.record_at(guild, k) by {
                if !before.cache()@.contains_key(guild) {
                    assert(found.record(k) == default_record(k));
                }
            }
            assert forall|g: u64, k: PermissionType| g != guild || k != *ty implies self.record_at(
                g,
                k,
            ) == before.record_at(g, k) by {
                if g == guild {
                    assert(self.cache()@[guild].data(k) == found.data(k));
                    assert(self.record_at(g, k) == found.record(k));
                    assert(found.record(k) == before.record_at(guild, k));
                } else {
                    assert(self.cache()@.contains_key(g) == before.cache()@.contains_key(g));
                    if self.cache()@.contains_key(g) {
                        assert(self.cache()@[g] == before.cache()@[g]);
                    }
                }
            }
        }
        row
    }

    /// Takes a grant back from a user, a role, or both. The two lists are
    /// handled independently, and the report says for each whether the id was
    /// there. The returned row must be written to the durable table in every
    /// case, before the caller is answered.
    pub fn revoke(
        &mut self,
        guild: u64,
        ty: &PermissionType,
        user: Option<u64>,
        role: Option<u64>,
    ) -> (out: (PermissionRow, RevokeReport))
        requires
            old(self).wf(),
        ensures
            final(self).wf(),
            final(self).sudo() == old(self).sudo(),
            final(self).touched(old(self), guild),
            final(self).record_at(guild, *ty) == spec_revoke(
                old(self).record_at(guild, *ty),
                user,
                role,
            ),
            forall|g: u64, k: PermissionType|
                g != guild || k != *ty ==> final(self).record_at(g, k) == old(self).record_at(g, k),
            out.1.user_found == (user matches Some(id) ==> old(self).record_at(
                guild,
                *ty,
            ).users.contains(id)),
            out.1.role_found == (role matches Some(id) ==> old(self).record_at(
                guild,
                *ty,
            ).roles.contains(id)),
            row_holds(out.0, guild, *ty, final(self).record_at(guild, *ty)),
    {
        let ghost before = *self;
        let entry = self.guild_cache.entry_mut(guild);
        let ghost found = *entry;
        let out = entry.remove(ty, user, role);
        proof {
            assert(self.cache()@.contains_key(guild));
            assert(self.cache()@ =~= before.cache()@.insert(guild, self.cache()@[guild]));
            assert(self.cache()@[guild].guild() == guild);
            assert forall|k: PermissionType| found.record(k) == before.record_at(guild, k) by {
                if !before.cache()@.contains_key(guild) {
                    assert(found.record(k) == default_record(k));
                }
            }
            assert forall|g: u64, k: PermissionType| g != guild || k != *ty implies self.record_at(
                g,
                k,
            ) == before.record_at(g, k) by {
                if g == guild {
                    assert(self.cache()@[guild].data(k) == found.data(k));
                    assert(self.record_at(g, k) == found.record(k));
                    assert(found.record(k) == before.record_at(guild, k));
                } else {
                    assert(self.cache()@.contains_key(g) == before.cache()@.contains_key(g));
                    if self.cache()@.contains_key(g) {
                        assert(self.cache()@[g] == before.cache()@[g]);
                    }
                }
            }
        }
        out
    }

    /// A copy of the record of a kind in a guild: its floor, roles and users.
    /// A guild without an entry gets its default entry.
    pub fn list_record(&mut self, guild: u64, ty: &PermissionType) -> (out: (u64, Vec<u64>, Vec<u64>))
        requires
            old(self).wf(),
        ensures
            final(self).wf(),
            final(self).sudo() == old(self).sudo(),
            final(self).populated(old(self), guild),
            forall|g: u64, k: PermissionType| final(self).record_at(g, k) == old(self).record_at(g, k),
            out.0 == old(self).record_at(guild, *ty).floor,
            out.1@ == old(self).record_at(guild, *ty).roles,
            out.2@ == old(self).record_at(guild, *ty).users,
    {
        let entry = self.guild_cache.entry(guild);
        let data = entry.get(ty);
        let out = (data.discord, copy_ids(&data.roles), copy_ids(&data.users));
        proof {
            assert forall|g: u64, k: PermissionType| final(self).record_at(g, k) == old(
                self,
            ).record_at(g, k) by {
                if g == guild && !old(self).cache()@.contains_key(guild) {
                    assert(final(self).cache()@[guild].all_default());
                }
            }
        }
        out
    }

    /// Reacts to a notice: the entry of a destroyed guild is dropped. The
    /// answer says whether to go on listening; a failed channel is given as
    /// no notice at all.
    pub fn on_task_message(&mut self, msg: Option<TaskMessage>) -> (listening: bool)
        requires
            old(self).wf(),
        ensures
            final(self).wf(),
            final(self).sudo() == old(self).sudo(),
            match msg {
                Some(TaskMessage::DestroyGuild(g)) => listening && final(self).cache()@ == old(
                    self,
                ).cache()@.remove(g),
                _ => !listening && final(self).cache()@ == old(self).cache()@,
            },
    {
        match msg {
            Some(TaskMessage::DestroyGuild(g)) => {
                self.evict(g);
                true
            },
            _ => false,
        }
    }

    /// Decides as [`check`](Self::check) does, as far as that can be done
    /// without touching the cache: the answer is given for a user of the sudo
    /// set, for the owner, and wherever the guild has an entry. Where it has
    /// none, nothing is answered, and `check` must be asked.
    pub fn peek_check(
        &self,
        ty: &PermissionType,
        guild: u64,
        owner: u64,
        user: u64,
        roles: &Vec<Role>,
    ) -> (r: Option<Option<PermissionType>>)
        requires
            self.wf(),
        ensures
            match r {
                Some(answer) => answer == self.spec_check(*ty, guild, owner, user, roles@),
                None => !self.cache()@.contains_key(guild) && !self.sudo().contains(user) && owner
                    != user,
            },
    {
        if self.sudo_users.contains(&user) {
            return Some(None);
        }
        if owner == user {
            return Some(None);
        }
        let entry = match self.guild_cache.peek(guild) {
            Some(entry) => entry,
            None => {
                return None;
            },
        };
        let highest = highest_permissions(roles);
        if Self::entry_perms_check(&PermissionType::Administrator, entry, highest, user, roles)
            || Self::entry_perms_check(ty, entry, highest, user, roles) {
            Some(None)
        } else {
            Some(Some(*ty))
        }
    }

    /// Drops the entry of a guild that was purged from the durable store.
    pub fn evict(&mut self, guild: u64)
        requires
            old(self).wf(),
        ensures
            final(self).wf(),
            final(self).sudo() == old(self).sudo(),
            final(self).cache()@ == old(self).cache()@.remove(guild),
    {
        self.guild_cache.evict(guild);
    }
}

/// Whoever passes the check for `Administrator` passes the check for every
/// other kind, as the same actor in the same guild.
pub proof fn lemma_administrator_overrides(
    m: PermissionsModule,
    ty: PermissionType,
    guild: u64,
    owner: u64,
    user: u64,
    roles: Seq<Role>,
)
    requires
        m.spec_check(PermissionType::Administrator, guild, owner, user, roles) is None,
    ensures
        m.spec_check(ty, guild, owner, user, roles) is None,
{
}

/// The owner of the guild and the users of the sudo set pass every check,
/// whatever the kind and whatever the cache holds, loaded or not.
pub proof fn lemma_owner_and_sudo_bypass(
    m: PermissionsModule,
    ty: PermissionType,
    guild: u64,
    owner: u64,
    user: u64,
    roles: Seq<Role>,
)
    requires
        owner == user || m.sudo().contains(user),
    ensures
        m.spec_check(ty, guild, owner, user, roles) is None,
{
}

/// Loading the row that was written for a well-formed record gives the same
/// floor, roles and users back, under the same guild.
pub proof fn lemma_row_round_trip(
    row: PermissionRow,
    guild: u64,
    ty: PermissionType,
    record: PermissionRecord,
    before: PermissionRecord,
)
    requires
        record_wf(record),
        row_holds(row, guild, ty, record),
    ensures
        spec_from_sql(row.guild_id) == guild,
        valid_bits(spec_from_sql(row.overwrites)),
        record_of_row(row) == record,
        loaded_record(seq![row], guild, ty, before) == record,
{
    lemma_sql_round_trip(guild);
    lemma_sql_round_trip(record.floor);
    lemma_sql_ids_round_trip(record.roles);
    lemma_sql_ids_round_trip(record.users);
    lemma_sort_of_sorted(record.roles);
    lemma_sort_of_sorted(record.users);
    assert(seq![row].last() == row);
}

/// Whatever order a stored row holds its lists in, the record that it loads
/// to is well formed, as long as its floor holds known permissions only.
pub proof fn lemma_loaded_record_wf(row: PermissionRow)
    requires
        valid_bits(spec_from_sql(row.overwrites)),
    ensures
        record_wf(record_of_row(row)),
{
    lemma_sort_sorted(spec_ids_from_sql(row.roles@));
    lemma_sort_sorted(spec_ids_from_sql(row.users@));
}

/// A revocation treats the two lists independently: a list that does not
/// hold the named id stays as it is, whatever happens to the other, and a
/// list that holds it loses exactly one occurrence.
pub proof fn lemma_revoke_is_partial(r: PermissionRecord, user: Option<u64>, role: Option<u64>)
    requires
        record_wf(r),
    ensures
        spec_revoke(r, user, role).floor == r.floor,
        (user matches Some(id) ==> !r.users.contains(id)) ==> spec_revoke(r, user, role).users
            == r.users,
        (role matches Some(id) ==> !r.roles.contains(id)) ==> spec_revoke(r, user, role).roles
            == r.roles,
        (user matches Some(id) && r.users.contains(id)) ==> spec_revoke(r, user, role).users.len()
            == r.users.len() - 1,
        (role matches Some(id) && r.roles.contains(id)) ==> spec_revoke(r, user, role).roles.len()
            == r.roles.len() - 1,
{
    if let Some(id) = user {
        lemma_remove_effect(r.users, id);
    }
    if let Some(id) = role {
        lemma_remove_effect(r.roles, id);
    }
}

/// The record after the kind was granted to the users one after another.
pub open spec fn spec_grant_all(r: PermissionRecord, users: Seq<u64>) -> PermissionRecord
    decreases users.len(),
{
    if users.len() == 0 {
        r
    } else {
        spec_grant(spec_grant_all(r, users.drop_last()), Some(users.last()), None)
    }
}

/// No grant is lost: after a run of grants to users, the list of users holds
/// what it held before and every granted user, each as often as it was
/// granted, and is as much longer as there were grants. The floor and the
/// roles are as they were.
pub proof fn lemma_grants_accumulate(r: PermissionRecord, users: Seq<u64>)
    requires
        record_wf(r),
    ensures
        record_wf(spec_grant_all(r, users)),
        spec_grant_all(r, users).floor == r.floor,
        spec_grant_all(r, users).roles == r.roles,
        spec_grant_all(r, users).users.len() == r.users.len() + users.len(),
        spec_grant_all(r, users).users.to_multiset() == r.users.to_multiset().add(
            users.to_multiset(),
        ),
    decreases users.len(),
{
    broadcast use vstd::multiset::group_multiset_axioms;

    if users.len() == 0 {
        users.to_multiset_ensures();
        assert(users.to_multiset().len() == 0);
        assert(r.users.to_multiset().add(users.to_multiset()) =~= r.users.to_multiset());
    } else {
        let rest = users.drop_last();
        let last = users.last();
        lemma_grants_accumulate(r, rest);
        let before = spec_grant_all(r, rest);
        lemma_insert_point_parts(before.users, last);
        lemma_insert_keeps_sorted(before.users, last);
        vstd::seq_lib::to_multiset_insert(
            before.users,
            crate::sorted::insert_point(before.users, last),
            last,
        );
        assert(rest.push(last) =~= users);
        vstd::seq_lib::to_multiset_build(rest, last);
        assert(before.users.to_multiset().insert(last) =~= r.users.to_multiset().add(
            users.to_multiset(),
        ));
    }
}

/// A run of grants on the registry, each to one more user of the same guild
/// and kind, leaves the record that the grants give one after another.
/// `states` holds the registry before the first grant and after each grant.
pub proof fn lemma_registry_grants(
    states: Seq<PermissionsModule>,
    guild: u64,
    ty: PermissionType,
    users: Seq<u64>,
)
    requires
        states.len() == users.len() + 1,
        forall|i: int|
            0 <= i < users.len() ==> (#[trigger] states[i + 1]).record_at(guild, ty) == spec_grant(
                states[i].record_at(guild, ty),
                Some(users[i]),
                None,
            ),
    ensures
        states.last().record_at(guild, ty) == spec_grant_all(
            states[0].record_at(guild, ty),
            users,
        ),
    decreases users.len(),
{
    if users.len() > 0 {
        let n = users.len() as int;
        let earlier = states.drop_last();
        let rest = users.drop_last();
        assert forall|i: int| 0 <= i < rest.len() implies (#[trigger] earlier[i + 1]).record_at(
            guild,
            ty,
        ) == spec_grant(earlier[i].record_at(guild, ty), Some(rest[i]), None) by {
            assert(earlier[i + 1] == states[i + 1] && earlier[i] == states[i]);
            assert(rest[i] == users[i]);
        }
        lemma_registry_grants(earlier, guild, ty, rest);
        assert(earlier.last() == states[n - 1]);
        assert(earlier[0] == states[0]);
        assert(states[(n - 1) + 1] == states.last());
    }
}

} // verus!
