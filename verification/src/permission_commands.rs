//! The commands that show and change permissions.
//!
//! Each command reads its arguments first and changes nothing where they are
//! wrong. A change is made in the cache and handed back as the row that the
//! caller must write to the durable table before it answers.

use vstd::prelude::*;
use crate::custom_ids::{build_custom_id, CustomIdType, CUSTOM_ID_LIMIT};
use crate::decode::{
    spec_get_integer, spec_get_role, spec_get_string, spec_get_user, SlashMap, SlashValue,
};
use crate::error::{BotError, BotErrorView, CommandError, CommandErrorView};
use crate::permissions::{
    default_record, describe_native, native_from_bits, native_names, row_holds, spec_grant,
    spec_revoke, valid_bits, PermissionRecord, PermissionRow, PermissionType, PermissionsModule,
    RevokeReport,
};
use crate::text::{join, spec_join, texts};
use crate::utils::{mention_role, mention_user, spec_mention_role, spec_mention_user};

verus! {

/// Whether a result is what the plain description says: the same value, or
/// an error with the same contents.
pub open spec fn agrees<T>(r: Result<T, CommandError>, plain: Result<T, CommandErrorView>) -> bool {
    match r {
        Ok(v) => plain == Ok::<T, CommandErrorView>(v),
        Err(e) => plain == Err::<T, CommandErrorView>(e@),
    }
}

/// The arguments of `permissions set`.
#[derive(Debug, Clone, Copy, PartialEq, Eq, Structural)]
pub struct SetArgs {
    pub guild: u64,
    pub ty: PermissionType,
    pub bits: u64,
}

/// The arguments of `permissions add` and `permissions remove`.
#[derive(Debug, Clone, Copy, PartialEq, Eq, Structural)]
pub struct GrantArgs {
    pub guild: u64,
    pub ty: PermissionType,
    pub user: Option<u64>,
    pub role: Option<u64>,
}

/// What the argument `permission` names.
pub open spec fn spec_kind_arg(args: Map<Seq<char>, SlashValue>) -> Result<
    PermissionType,
    CommandErrorView,
> {
    match spec_get_string(args, "permission"@) {
        Err(e) => Err(CommandErrorView::Decode(e)),
        Ok(name) => match PermissionType::spec_from_string(name) {
            Some(ty) => Ok(ty),
            None => Err(
                CommandErrorView::Bot(
                    BotErrorView::InvalidRequest("Invalid permission name "@ + name),
                ),
            ),
        },
    }
}

/// The user that the argument `user` names, if it names one.
pub open spec fn spec_user_arg(args: Map<Seq<char>, SlashValue>) -> Option<u64> {
    match spec_get_user(args, "user"@) {
        Ok(u) => Some(u.spec_user().id),
        Err(_) => None,
    }
}

/// What `permissions set` is asked to do.
pub open spec fn spec_set_args(guild_id: Option<u64>, args: Map<Seq<char>, SlashValue>) -> Result<
    SetArgs,
    CommandErrorView,
> {
    match spec_kind_arg(args) {
        Err(e) => Err(e),
        Ok(ty) => match spec_get_integer(args, "bits"@) {
            Err(e) => Err(CommandErrorView::Decode(e)),
            Ok(bits) => if !valid_bits(bits as u64) {
                Err(CommandErrorView::Bot(BotErrorView::InvalidRequest("Invalid permissions bits"@)))
            } else {
                match guild_id {
                    None => Err(CommandErrorView::Bot(BotErrorView::GuildOnly)),
                    Some(guild) => Ok(SetArgs { guild, ty, bits: bits as u64 }),
                }
            },
        },
    }
}

/// What `permissions add` is asked to do. A role of another guild is
/// rejected; a user or a role must be named.
pub open spec fn spec_add_args(guild_id: Option<u64>, args: Map<Seq<char>, SlashValue>) -> Result<
    GrantArgs,
    CommandErrorView,
> {
    match spec_kind_arg(args) {
        Err(e) => Err(e),
        Ok(ty) => match guild_id {
            None => Err(CommandErrorView::Bot(BotErrorView::GuildOnly)),
            Some(guild) => {
                let user = spec_user_arg(args);
                let role = spec_get_role(args, "role"@);
                if role is Ok && role->Ok_0.guild_id != guild {
                    Err(CommandErrorView::Bot(BotErrorView::WrongGuild))
                } else if user is None && role is Err {
                    Err(
                        CommandErrorView::Bot(
                            BotErrorView::Generic("Must specify either `user` or `role`"@),
                        ),
                    )
                } else {
                    Ok(
                        GrantArgs {
                            guild,
                            ty,
                            user,
                            role: match role {
                                Ok(r) => Some(r.id),
                                Err(_) => None,
                            },
                        },
                    )
                }
            },
        },
    }
}

/// What `permissions remove` is asked to do. A user or a role must be named.
pub open spec fn spec_remove_args(guild_id: Option<u64>, args: Map<Seq<char>, SlashValue>) -> Result<
    GrantArgs,
    CommandErrorView,
> {
    match spec_kind_arg(args) {
        Err(e) => Err(e),
        Ok(ty) => {
            let user = spec_user_arg(args);
            let role = spec_get_role(args, "role"@);
            if user is None && role is Err {
                Err(
                    CommandErrorView::Bot(
                        BotErrorView::Generic("Must specify either `user` or `role`"@),
                    ),
                )
            } else {
                match guild_id {
                    None => Err(CommandErrorView::Bot(BotErrorView::GuildOnly)),
                    Some(guild) => Ok(
                        GrantArgs {
                            guild,
                            ty,
                            user,
                            role: match role {
                                Ok(r) => Some(r.id),
                                Err(_) => None,
                            },
                        },
                    ),
                }
            }
        },
    }
}

fn kind_arg(args: &SlashMap) -> (r: Result<PermissionType, CommandError>)
    requires
        args.wf(),
    ensures
        agrees(r, spec_kind_arg(args@)),
{
    let name = match args.get_string("permission") {
        Ok(name) => name,
        Err(e) => {
            return Err(CommandError::Decode(e));
        },
    };
    match PermissionType::from_string(name.as_str()) {
        Ok(ty) => Ok(ty),
        Err(e) => Err(CommandError::Bot(e)),
    }
}

fn user_arg(args: &SlashMap) -> (r: Option<u64>)
    requires
        args.wf(),
    ensures
        r == spec_user_arg(args@),
{
    match args.get_user("user") {
        Ok(u) => Some(u.get_user().id),
        Err(_) => None,
    }
}

/// Reads the arguments of `permissions set`.
pub fn read_set_args(guild_id: Option<u64>, args: &SlashMap) -> (r: Result<SetArgs, CommandError>)
    requires
        args.wf(),
    ensures
        agrees(r, spec_set_args(guild_id, args@)),
{
    let ty = match kind_arg(args) {
        Ok(ty) => ty,
        Err(e) => {
            return Err(e);
        },
    };
    let raw = match args.get_integer("bits") {
        Ok(i) => i,
        Err(e) => {
            return Err(CommandError::Decode(e));
        },
    };
    let bits = match native_from_bits(raw as u64) {
        Some(bits) => bits,
        None => {
            return Err(
                CommandError::Bot(
                    BotError::InvalidRequest(String::from_str("Invalid permissions bits")),
                ),
            );
        },
    };
    match guild_id {
        None => Err(CommandError::Bot(BotError::GuildOnly)),
        Some(guild) => Ok(SetArgs { guild, ty, bits }),
    }
}

/// Reads the arguments of `permissions add`.
pub fn read_add_args(guild_id: Option<u64>, args: &SlashMap) -> (r: Result<GrantArgs, CommandError>)
    requires
        args.wf(),
    ensures
        agrees(r, spec_add_args(guild_id, args@)),
{
    let ty = match kind_arg(args) {
        Ok(ty) => ty,
        Err(e) => {
            return Err(e);
        },
    };
    let user = user_arg(args);
    let role = match args.get_role("role") {
        Ok(r) => Some(r),
        Err(_) => None,
    };
    let guild = match guild_id {
        Some(g) => g,
        None => {
            return Err(CommandError::Bot(BotError::GuildOnly));
        },
    };
    if let Some(r) = role {
        if r.guild_id != guild {
            return Err(CommandError::Bot(BotError::WrongGuild));
        }
    }
    if user.is_none() && role.is_none() {
        return Err(
            CommandError::Bot(
                BotError::Generic(String::from_str("Must specify either `user` or `role`")),
            ),
        );
    }
    Ok(
        GrantArgs {
            guild,
            ty,
            user,
            role: match role {
                Some(r) => Some(r.id),
                None => None,
            },
        },
    )
}

/// Reads the arguments of `permissions remove`.
pub fn read_remove_args(guild_id: Option<u64>, args: &SlashMap) -> (r: Result<
    GrantArgs,
    CommandError,
>)
    requires
        args.wf(),
    ensures
        agrees(r, spec_remove_args(guild_id, args@)),
{
    let ty = match kind_arg(args) {
        Ok(ty) => ty,
        Err(e) => {
            return Err(e);
        },
    };
    let user = user_arg(args);
    let role = match args.get_role("role") {
        Ok(r) => Some(r.id),
        Err(_) => None,
    };
    if user.is_none() && role.is_none() {
        return Err(
            CommandError::Bot(
                BotError::Generic(String::from_str("Must specify either `user` or `role`")),
            ),
        );
    }
    match guild_id {
        None => Err(CommandError::Bot(BotError::GuildOnly)),
        Some(guild) => Ok(GrantArgs { guild, ty, user, role }),
    }
}

/// What a revocation leaves to do: the row to write, and then the complaints
/// to answer with, one for each id that was named and not in its list.
#[derive(Debug)]
pub struct Revocation {
    /// The row to write to the durable table, in every case.
    pub row: PermissionRow,
    /// The errors to answer with after the row was written: first that about
    /// the user, then that about the role, each only where the id was named
    /// and not found.
    pub complaints: Vec<BotError>,
}

/// The complaint that a user was not granted the kind.
pub open spec fn spec_user_complaint(user: u64) -> BotErrorView {
    BotErrorView::Generic("User "@ + spec_mention_user(user) + " not added"@)
}

/// The complaint that a role was not granted the kind.
pub open spec fn spec_role_complaint(role: u64) -> BotErrorView {
    BotErrorView::Generic("Role "@ + spec_mention_role(role) + " not added"@)
}

/// The complaints about a revocation: one about the user where a user was
/// named and not found, then one about the role where a role was named and
/// not found. Each id is reported on its own.
pub open spec fn spec_complaints(a: GrantArgs, report: RevokeReport) -> Seq<BotErrorView> {
    (if a.user is Some && !report.user_found {
        seq![spec_user_complaint(a.user->0)]
    } else {
        Seq::empty()
    }) + (if a.role is Some && !report.role_found {
        seq![spec_role_complaint(a.role->0)]
    } else {
        Seq::empty()
    })
}

/// The complaints as plain values.
pub open spec fn complaints_view(complaints: Seq<BotError>) -> Seq<BotErrorView> {
    Seq::new(complaints.len(), |i: int| complaints[i]@)
}

/// The texts of the complaints.
pub open spec fn complaint_texts(complaints: Seq<BotError>) -> Seq<Seq<char>> {
    Seq::new(complaints.len(), |i: int| complaints[i].spec_message())
}

impl Revocation {
    /// The one error to answer with: nothing where there is no complaint,
    /// else the texts of all complaints, each on a line of its own.
    pub fn answer(&self) -> (e: Option<BotError>)
        ensures
            match e {
                None => self.complaints@.len() == 0,
                Some(err) => self.complaints@.len() > 0 && err.is_generic(
                    spec_join(complaint_texts(self.complaints@), "\n"@),
                ),
            },
    {
        if self.complaints.len() == 0 {
            return None;
        }
        let mut lines: Vec<String> = Vec::new();
        let mut i: usize = 0;
        while i < self.complaints.len()
            invariant
                i <= self.complaints.len(),
                texts(lines@) == complaint_texts(self.complaints@).take(i as int),
            decreases self.complaints.len() - i,
        {
            let line = self.complaints[i].message();
            let ghost done = texts(lines@);
            let ghost written = line@;
            lines.push(line);
            i += 1;
            assert(texts(lines@) =~= done.push(written));
            assert(texts(lines@) =~= complaint_texts(self.complaints@).take(i as int));
        }
        assert(complaint_texts(self.complaints@).take(i as int) =~= complaint_texts(
            self.complaints@,
        ));
        Some(BotError::Generic(join(&lines, "\n")))
    }
}

/// What a revocation finds in a record.
pub open spec fn spec_report(record: PermissionRecord, a: GrantArgs) -> RevokeReport {
    RevokeReport {
        user_found: a.user matches Some(id) ==> record.users.contains(id),
        role_found: a.role matches Some(id) ==> record.roles.contains(id),
    }
}

impl PermissionsModule {
    /// Whether every record but that of one guild and kind is the same in
    /// the two registries.
    pub open spec fn same_but(&self, other: &PermissionsModule, guild: u64, ty: PermissionType) -> bool {
        &&& self.sudo() == other.sudo()
        &&& forall|g: u64, k: PermissionType|
            g != guild || k != ty ==> self.record_at(g, k) == other.record_at(g, k)
    }

    /// Whether nothing differs between the two registries: the same sudo set
    /// and the same entries.
    pub open spec fn untouched(&self, other: &PermissionsModule) -> bool {
        self.sudo() == other.sudo() && self.cache()@ == other.cache()@
    }

    /// Whether every record is the same in the two registries.
    pub open spec fn same_records(&self, other: &PermissionsModule) -> bool {
        &&& self.sudo() == other.sudo()
        &&& forall|g: u64, k: PermissionType| self.record_at(g, k) == other.record_at(g, k)
    }

    /// `permissions set`: replaces the floor of a kind.
    pub fn permissions_set(&mut self, guild_id: Option<u64>, args: &SlashMap) -> (r: Result<
        PermissionRow,
        CommandError,
    >)
        requires
            old(self).wf(),
            args.wf(),
        ensures
            final(self).wf(),
            match spec_set_args(guild_id, args@) {
                Err(e) => r matches Err(err) && err@ == e && final(self).untouched(old(self)),
                Ok(a) => {
                    &&& r matches Ok(row)
                    &&& row_holds(row, a.guild, a.ty, final(self).record_at(a.guild, a.ty))
                    &&& final(self).record_at(a.guild, a.ty) == (PermissionRecord {
                        floor: a.bits,
                        roles: old(self).record_at(a.guild, a.ty).roles,
                        users: old(self).record_at(a.guild, a.ty).users,
                    })
                    &&& final(self).same_but(old(self), a.guild, a.ty)
                    &&& final(self).touched(old(self), a.guild)
                },
            },
    {
        match read_set_args(guild_id, args) {
            Err(e) => Err(e),
            Ok(a) => Ok(self.set_floor(a.guild, &a.ty, a.bits)),
        }
    }

    /// `permissions add`: grants a kind to a user, a role, or both.
    pub fn permissions_add(&mut self, guild_id: Option<u64>, args: &SlashMap) -> (r: Result<
        PermissionRow,
        CommandError,
    >)
        requires
            old(self).wf(),
            args.wf(),
        ensures
            final(self).wf(),
            match spec_add_args(guild_id, args@) {
                Err(e) => r matches Err(err) && err@ == e && final(self).untouched(old(self)),
                Ok(a) => {
                    &&& r matches Ok(row)
                    &&& row_holds(row, a.guild, a.ty, final(self).record_at(a.guild, a.ty))
                    &&& final(self).record_at(a.guild, a.ty) == spec_grant(
                        old(self).record_at(a.guild, a.ty),
                        a.user,
                        a.role,
                    )
                    &&& final(self).same_but(old(self), a.guild, a.ty)
                    &&& final(self).touched(old(self), a.guild)
                },
            },
    {
        match read_add_args(guild_id, args) {
            Err(e) => Err(e),
            Ok(a) => Ok(self.grant(a.guild, &a.ty, a.user, a.role)),
        }
    }

    /// `permissions remove`: takes a grant back from a user, a role, or both.
    /// The two are handled independently: where one was not granted, the
    /// other is still taken back and the row is still to be written. Each id
    /// that was named and not granted gets a complaint of its own.
    pub fn permissions_remove(&mut self, guild_id: Option<u64>, args: &SlashMap) -> (r: Result<
        Revocation,
        CommandError,
    >)
        requires
            old(self).wf(),
            args.wf(),
        ensures
            final(self).wf(),
            match spec_remove_args(guild_id, args@) {
                Err(e) => r matches Err(err) && err@ == e && final(self).untouched(old(self)),
                Ok(a) => {
                    &&& r matches Ok(done)
                    &&& row_holds(done.row, a.guild, a.ty, final(self).record_at(a.guild, a.ty))
                    &&& final(self).record_at(a.guild, a.ty) == spec_revoke(
                        old(self).record_at(a.guild, a.ty),
                        a.user,
                        a.role,
                    )
                    &&& final(self).same_but(old(self), a.guild, a.ty)
                    &&& final(self).touched(old(self), a.guild)
                    &&& complaints_view(done.complaints@) == spec_complaints(
                        a,
                        spec_report(old(self).record_at(a.guild, a.ty), a),
                    )
                },
            },
    {
        let a = match read_remove_args(guild_id, args) {
            Ok(a) => a,
            Err(e) => {
                return Err(e);
            },
        };
        let (row, report) = self.revoke(a.guild, &a.ty, a.user, a.role);
        let mut complaints: Vec<BotError> = Vec::new();
        if !report.user_found {
            let mut msg = String::from_str("User ");
            msg.append(mention_user(a.user.unwrap()).as_str());
            msg.append(" not added");
            complaints.push(BotError::Generic(msg));
        }
        if !report.role_found {
            let mut msg = String::from_str("Role ");
            msg.append(mention_role(a.role.unwrap()).as_str());
            msg.append(" not added");
            complaints.push(BotError::Generic(msg));
        }
        proof {
            assert(complaints_view(complaints@) =~= spec_complaints(
                a,
                spec_report(old(self).record_at(a.guild, a.ty), a),
            ));
        }
        Ok(Revocation { row, complaints })
    }
}

/// One entry of the menu of permission kinds.
#[derive(Debug, Clone, Copy, PartialEq, Eq)]
pub struct MenuOption {
    pub label: &'static str,
    pub value: &'static str,
    pub description: &'static str,
}

/// The menu from which a permission kind is picked.
#[derive(Debug)]
pub struct SelectMenu {
    /// The identifier under which the pick comes back.
    pub custom_id: String,
    pub options: Vec<MenuOption>,
    /// The text shown while nothing is picked.
    pub placeholder: Option<&'static str>,
}

/// The kinds in the order in which the menu shows them.
pub open spec fn menu_kinds() -> Seq<PermissionType> {
    seq![
        PermissionType::Administrator,
        PermissionType::ManagePermissions,
        PermissionType::ManagePreviews,
        PermissionType::CreateArchive,
        PermissionType::Timeout,
    ]
}

/// Whether a menu entry is that of a kind.
pub open spec fn option_of(option: MenuOption, ty: PermissionType) -> bool {
    &&& option.label@ == ty.spec_display()
    &&& option.value@ == ty.spec_value()
    &&& option.description@ == ty.spec_description()
}

/// The lines that mention the ids, one per line, with the given mention.
pub open spec fn spec_mentions(ids: Seq<u64>, mention: spec_fn(u64) -> Seq<char>) -> Seq<char> {
    spec_join(Seq::new(ids.len(), |i: int| mention(ids[i])), "\n"@)
}

/// What picking a kind from the menu shows.
#[derive(Debug)]
pub struct Listing {
    /// The display name of the kind.
    pub title: &'static str,
    /// The fields to show, by name and text, in this order.
    pub fields: Vec<(&'static str, String)>,
    /// The menu to show again, with the kind as placeholder.
    pub menu: SelectMenu,
}

/// The fields that show a record: the roles and the users where there are
/// any, each mentioned on a line of its own, and the native permissions.
pub open spec fn spec_listing_fields(record: PermissionRecord) -> Seq<(Seq<char>, Seq<char>)> {
    let roles = if record.roles.len() > 0 {
        seq![("Roles"@, spec_mentions(record.roles, |id: u64| spec_mention_role(id)))]
    } else {
        Seq::empty()
    };
    let users = if record.users.len() > 0 {
        seq![("Users"@, spec_mentions(record.users, |id: u64| spec_mention_user(id)))]
    } else {
        Seq::empty()
    };
    roles + users + seq![("Default"@, native_names(record.floor))]
}

/// The fields as plain text.
pub open spec fn fields_view(fields: Seq<(&'static str, String)>) -> Seq<(Seq<char>, Seq<char>)> {
    Seq::new(fields.len(), |i: int| (fields[i].0@, fields[i].1@))
}

fn mention_lines(ids: &Vec<u64>, roles: bool) -> (s: String)
    ensures
        roles ==> s@ == spec_mentions(ids@, |id: u64| spec_mention_role(id)),
        !roles ==> s@ == spec_mentions(ids@, |id: u64| spec_mention_user(id)),
{
    let mut lines: Vec<String> = Vec::new();
    let mut i: usize = 0;
    let ghost mention = if roles {
        |id: u64| spec_mention_role(id)
    } else {
        |id: u64| spec_mention_user(id)
    };
    while i < ids.len()
        invariant
            i <= ids.len(),
            mention == (if roles {
                |id: u64| spec_mention_role(id)
            } else {
                |id: u64| spec_mention_user(id)
            }),
            texts(lines@) == Seq::new(i as nat, |j: int| mention(ids@[j])),
        decreases ids.len() - i,
    {
        let line = if roles {
            mention_role(ids[i])
        } else {
            mention_user(ids[i])
        };
        let ghost done = texts(lines@);
        let ghost written = line@;
        lines.push(line);
        i += 1;
        assert(texts(lines@) =~= done.push(written));
        assert(texts(lines@) =~= Seq::new(i as nat, |j: int| mention(ids@[j])));
    }
    join(&lines, "\n")
}

impl PermissionType {
    /// The entries of the menu of kinds, in order.
    pub fn build_select_menu_options() -> (options: Vec<MenuOption>)
        ensures
            options@.len() == menu_kinds().len(),
            forall|i: int| 0 <= i < options@.len() ==> option_of(options@[i], menu_kinds()[i]),
    {
        let mut options: Vec<MenuOption> = Vec::new();
        options.push(Self::menu_option(PermissionType::Administrator));
        options.push(Self::menu_option(PermissionType::ManagePermissions));
        options.push(Self::menu_option(PermissionType::ManagePreviews));
        options.push(Self::menu_option(PermissionType::CreateArchive));
        options.push(Self::menu_option(PermissionType::Timeout));
        options
    }

    fn menu_option(ty: PermissionType) -> (option: MenuOption)
        ensures
            option_of(option, ty),
    {
        MenuOption { label: ty.as_display(), value: ty.as_value(), description: ty.description() }
    }
}

impl PermissionsModule {
    /// `permissions list`: the menu from which a kind is picked.
    pub fn permissions_list() -> (menu: SelectMenu)
        ensures
            menu.custom_id@ == "MAK;"@ + CustomIdType::ListPermissions.spec_name(),
            menu.custom_id@.len() <= CUSTOM_ID_LIMIT,
            menu.placeholder is None,
            menu.options@.len() == menu_kinds().len(),
            forall|i: int|
                0 <= i < menu.options@.len() ==> option_of(menu.options@[i], menu_kinds()[i]),
    {
        let custom_id = build_custom_id(&CustomIdType::ListPermissions, &None);
        proof {
            reveal_strlit("MAK;");
            reveal_strlit("ListPermissions");
            assert(custom_id@ =~= "MAK;"@ + CustomIdType::ListPermissions.spec_name());
        }
        SelectMenu {
            custom_id,
            options: PermissionType::build_select_menu_options(),
            placeholder: None,
        }
    }

    /// A kind was picked from the menu: shows its record in the guild. The
    /// pick comes as the first of the values; the command needs a guild.
    pub fn permissions_list_component(&mut self, guild_id: Option<u64>, values: &Vec<String>) -> (r:
        Result<Listing, BotError>)
        requires
            old(self).wf(),
        ensures
            final(self).wf(),
            final(self).same_records(old(self)),
            match r {
                Ok(_) => guild_id is Some && final(self).populated(old(self), guild_id->0),
                Err(_) => final(self).untouched(old(self)),
            },
            match r {
                Ok(listing) => {
                    &&& values@.len() > 0
                    &&& PermissionType::spec_from_string(values@[0]@) matches Some(ty)
                    &&& guild_id matches Some(guild)
                    &&& listing.title@ == ty.spec_display()
                    &&& fields_view(listing.fields@) == spec_listing_fields(
                        old(self).record_at(guild, ty),
                    )
                    &&& listing.menu.custom_id@ == "MAK;"@
                        + CustomIdType::ListPermissions.spec_name()
                    &&& listing.menu.custom_id@.len() <= CUSTOM_ID_LIMIT
                    &&& listing.menu.placeholder matches Some(text)
                    &&& text@ == ty.spec_display()
                    &&& listing.menu.options@.len() == menu_kinds().len()
                    &&& forall|i: int|
                        0 <= i < listing.menu.options@.len() ==> option_of(
                            listing.menu.options@[i],
                            menu_kinds()[i],
                        )
                },
                Err(e) => if values@.len() == 0 {
                    e.is_invalid_request("Missing component values"@)
                } else if PermissionType::spec_from_string(values@[0]@) is None {
                    e.is_invalid_request("Invalid permission name "@ + values@[0]@)
                } else {
                    guild_id is None && e == BotError::GuildOnly
                },
            },
    {
        if values.len() == 0 {
            return Err(BotError::InvalidRequest(String::from_str("Missing component values")));
        }
        let ty = match PermissionType::from_string(values[0].as_str()) {
            Ok(ty) => ty,
            Err(e) => {
                return Err(e);
            },
        };
        let guild = match guild_id {
            Some(g) => g,
            None => {
                return Err(BotError::GuildOnly);
            },
        };
        let (bits, roles, users) = self.list_record(guild, &ty);
        let mut fields: Vec<(&'static str, String)> = Vec::new();
        if roles.len() > 0 {
            fields.push(("Roles", mention_lines(&roles, true)));
        }
        if users.len() > 0 {
            fields.push(("Users", mention_lines(&users, false)));
        }
        fields.push(("Default", describe_native(bits)));
        let mut menu = Self::permissions_list();
        menu.placeholder = Some(ty.as_display());
        proof {
            assert(fields_view(fields@) =~= spec_listing_fields(old(self).record_at(guild, ty)));
        }
        Ok(Listing { title: ty.as_display(), fields, menu })
    }
}

} // verus!
