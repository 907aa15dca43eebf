use vstd::prelude::*;

use crate::chain::join_names;
use crate::text::str_eq;

verus! {

/// One grantable privilege.
#[derive(Debug, Clone, Copy, PartialEq, Eq, Structural)]
pub enum UserPrivilegeType {
    Usage,
    Select,
    Insert,
    Update,
    Delete,
    Create,
    Drop,
    Alter,
    Super,
}

/// The bit a privilege occupies in a privilege mask.
pub open spec fn priv_bit_spec(p: UserPrivilegeType) -> u64 {
    match p {
        UserPrivilegeType::Usage => 1,
        UserPrivilegeType::Select => 2,
        UserPrivilegeType::Insert => 4,
        UserPrivilegeType::Update => 8,
        UserPrivilegeType::Delete => 16,
        UserPrivilegeType::Create => 32,
        UserPrivilegeType::Drop => 64,
        UserPrivilegeType::Alter => 128,
        UserPrivilegeType::Super => 256,
    }
}

fn priv_bit(p: UserPrivilegeType) -> (r: u64)
    ensures
        r == priv_bit_spec(p),
{
    match p {
        UserPrivilegeType::Usage => 1,
        UserPrivilegeType::Select => 2,
        UserPrivilegeType::Insert => 4,
        UserPrivilegeType::Update => 8,
        UserPrivilegeType::Delete => 16,
        UserPrivilegeType::Create => 32,
        UserPrivilegeType::Drop => 64,
        UserPrivilegeType::Alter => 128,
        UserPrivilegeType::Super => 256,
    }
}

/// A set of privileges, as a bit mask over `priv_bit_spec`.
#[derive(Debug, Clone, Copy, PartialEq, Eq, Structural)]
pub struct UserPrivilegeSet {
    pub mask: u64,
}

pub const ALL_PRIVILEGES_MASK: u64 = 511;

pub const DATABASE_PRIVILEGES_MASK: u64 = 255;

pub const TABLE_PRIVILEGES_MASK: u64 = 127;

impl UserPrivilegeSet {
    pub fn empty() -> (r: UserPrivilegeSet)
        ensures
            r.mask == 0,
    {
        UserPrivilegeSet { mask: 0 }
    }

    /// Whether the set holds the privilege.
    pub fn contains(&self, p: UserPrivilegeType) -> (r: bool)
        ensures
            r == (self.mask & priv_bit_spec(p) != 0),
    {
        self.mask & priv_bit(p) != 0
    }

    /// Adds one privilege.
    pub fn with(&self, p: UserPrivilegeType) -> (r: UserPrivilegeSet)
        ensures
            r.mask == self.mask | priv_bit_spec(p),
    {
        UserPrivilegeSet { mask: self.mask | priv_bit(p) }
    }

    /// Every privilege that exists on the global object.
    pub fn available_privileges_on_global() -> (r: UserPrivilegeSet)
        ensures
            r.mask == ALL_PRIVILEGES_MASK,
    {
        UserPrivilegeSet { mask: ALL_PRIVILEGES_MASK }
    }

    /// Every privilege that exists on a database object.
    pub fn available_privileges_on_database() -> (r: UserPrivilegeSet)
        ensures
            r.mask == DATABASE_PRIVILEGES_MASK,
    {
        UserPrivilegeSet { mask: DATABASE_PRIVILEGES_MASK }
    }

    /// Every privilege that exists on a table object.
    pub fn available_privileges_on_table() -> (r: UserPrivilegeSet)
        ensures
            r.mask == TABLE_PRIVILEGES_MASK,
    {
        UserPrivilegeSet { mask: TABLE_PRIVILEGES_MASK }
    }
}

/// What a grant covers: everything, one database, or one table.
#[derive(Debug, PartialEq, Eq)]
pub enum GrantObject {
    Global,
    Database(String),
    Table(String, String),
}

/// The mathematical shape of a grant object.
#[verifier::ext_equal]
pub enum GrantObjectView {
    Global,
    Database(Seq<char>),
    Table(Seq<char>, Seq<char>),
}

impl View for GrantObject {
    type V = GrantObjectView;

    open spec fn view(&self) -> GrantObjectView {
        match self {
            GrantObject::Global => GrantObjectView::Global,
            GrantObject::Database(db) => GrantObjectView::Database(db@),
            GrantObject::Table(db, t) => GrantObjectView::Table(db@, t@),
        }
    }
}

impl Clone for GrantObject {
    fn clone(&self) -> (r: Self)
        ensures
            r@ == self@,
    {
        match self {
            GrantObject::Global => GrantObject::Global,
            GrantObject::Database(db) => GrantObject::Database(db.clone()),
            GrantObject::Table(db, t) => GrantObject::Table(db.clone(), t.clone()),
        }
    }
}

/// The containment order of grant objects: the global object covers
/// everything, a database covers itself and its tables, a table covers
/// only itself.
pub open spec fn contains_spec(a: GrantObjectView, b: GrantObjectView) -> bool {
    match (a, b) {
        (GrantObjectView::Global, _) => true,
        (GrantObjectView::Database(_), GrantObjectView::Global) => false,
        (GrantObjectView::Database(lhs), GrantObjectView::Database(rhs)) => lhs == rhs,
        (GrantObjectView::Database(lhs), GrantObjectView::Table(rhs, _)) => lhs == rhs,
        (GrantObjectView::Table(ldb, lt), GrantObjectView::Table(rdb, rt)) => ldb == rdb && lt
            == rt,
        (GrantObjectView::Table(_, _), _) => false,
    }
}

/// The privileges available on an object, by its kind.
pub open spec fn available_mask_spec(o: GrantObjectView) -> u64 {
    match o {
        GrantObjectView::Global => ALL_PRIVILEGES_MASK,
        GrantObjectView::Database(_) => DATABASE_PRIVILEGES_MASK,
        GrantObjectView::Table(_, _) => TABLE_PRIVILEGES_MASK,
    }
}

impl GrantObject {
    /// Whether this object covers `object`: the database object contains
    /// the tables inside it, and the global object contains everything.
    pub fn contains(&self, object: &GrantObject) -> (r: bool)
        ensures
            r == contains_spec(self@, object@),
    {
        match (self, object) {
            (GrantObject::Global, _) => true,
            (GrantObject::Database(_), GrantObject::Global) => false,
            (GrantObject::Database(lhs), GrantObject::Database(rhs)) => str_eq(
                lhs.as_str(),
                rhs.as_str(),
            ),
            (GrantObject::Database(lhs), GrantObject::Table(rhs, _)) => str_eq(
                lhs.as_str(),
                rhs.as_str(),
            ),
            (GrantObject::Table(ldb, lt), GrantObject::Table(rdb, rt)) => str_eq(
                ldb.as_str(),
                rdb.as_str(),
            ) && str_eq(lt.as_str(), rt.as_str()),
            (GrantObject::Table(_, _), _) => false,
        }
    }

    /// The privileges that exist on this object's kind.
    pub fn available_privileges(&self) -> (r: UserPrivilegeSet)
        ensures
            r.mask == available_mask_spec(self@),
    {
        match self {
            GrantObject::Global => UserPrivilegeSet::available_privileges_on_global(),
            GrantObject::Database(_) => UserPrivilegeSet::available_privileges_on_database(),
            GrantObject::Table(_, _) => UserPrivilegeSet::available_privileges_on_table(),
        }
    }

    /// Structural equality of two objects.
    pub fn same_object(&self, other: &GrantObject) -> (r: bool)
        ensures
            r == (self@ == other@),
    {
        match (self, other) {
            (GrantObject::Global, GrantObject::Global) => true,
            (GrantObject::Database(a), GrantObject::Database(b)) => str_eq(
                a.as_str(),
                b.as_str(),
            ),
            (GrantObject::Table(a1, a2), GrantObject::Table(b1, b2)) => str_eq(
                a1.as_str(),
                b1.as_str(),
            ) && str_eq(a2.as_str(), b2.as_str()),
            _ => false,
        }
    }
}

/// One grant: a user at matching hosts holds privileges on an object.
#[derive(Debug, PartialEq, Eq)]
pub struct GrantEntry {
    user: String,
    host_pattern: String,
    object: GrantObject,
    privileges: u64,
}

/// The mathematical shape of a grant entry.
#[verifier::ext_equal]
pub struct GrantEntryView {
    pub user: Seq<char>,
    pub host_pattern: Seq<char>,
    pub object: GrantObjectView,
    pub privileges: u64,
}

impl View for GrantEntry {
    type V = GrantEntryView;

    closed spec fn view(&self) -> GrantEntryView {
        GrantEntryView {
            user: self.user@,
            host_pattern: self.host_pattern@,
            object: self.object@,
            privileges: self.privileges,
        }
    }
}

impl Clone for GrantEntry {
    fn clone(&self) -> (r: Self)
        ensures
            r@ == self@,
    {
        GrantEntry {
            user: self.user.clone(),
            host_pattern: self.host_pattern.clone(),
            object: self.object.clone(),
            privileges: self.privileges,
        }
    }
}

/// Whether a host matches a pattern: the lone wildcard matches every
/// host, anything else only itself.
pub open spec fn match_host_pattern_spec(pattern: Seq<char>, host: Seq<char>) -> bool {
    pattern == "%"@ || pattern == host
}

/// Whether an entry is for this user at this host.
pub open spec fn matches_user_host_spec(e: GrantEntryView, user: Seq<char>, host: Seq<char>) -> bool {
    e.user == user && match_host_pattern_spec(e.host_pattern, host)
}

/// Whether an entry verifies a privilege on an object.
pub open spec fn verify_privilege_spec(
    e: GrantEntryView,
    user: Seq<char>,
    host: Seq<char>,
    object: GrantObjectView,
    p: UserPrivilegeType,
) -> bool {
    matches_user_host_spec(e, user, host) && contains_spec(e.object, object) && e.privileges
        & priv_bit_spec(p) != 0
}

/// Whether an entry is the grant row keyed by user, host pattern and
/// object.
pub open spec fn matches_entry_spec(
    e: GrantEntryView,
    user: Seq<char>,
    host_pattern: Seq<char>,
    object: GrantObjectView,
) -> bool {
    e.user == user && e.host_pattern == host_pattern && e.object == object
}

impl GrantEntry {
    pub fn new(
        user: String,
        host_pattern: String,
        object: GrantObject,
        privileges: UserPrivilegeSet,
    ) -> (r: GrantEntry)
        ensures
            r@ == (GrantEntryView {
                user: user@,
                host_pattern: host_pattern@,
                object: object@,
                privileges: privileges.mask,
            }),
    {
        GrantEntry { user, host_pattern, object, privileges: privileges.mask }
    }

    /// Whether this entry grants `privilege` on `object` to `user` at
    /// `host`: the entry's user and host must match, and the verified
    /// object must lie inside the granted one.
    pub fn verify_privilege(
        &self,
        user: &str,
        host: &str,
        object: &GrantObject,
        privilege: UserPrivilegeType,
    ) -> (r: bool)
        ensures
            r == verify_privilege_spec(self@, user@, host@, object@, privilege),
    {
        if !self.matches_user_host(user, host) {
            return false;
        }
        // The verified object must be smaller than the granted object.
        if !self.object.contains(object) {
            return false;
        }
        self.privileges & priv_bit(privilege) != 0
    }

    /// Whether this is the grant row keyed by user, host pattern and
    /// object.
    pub fn matches_entry(&self, user: &str, host_pattern: &str, object: &GrantObject) -> (r: bool)
        ensures
            r == matches_entry_spec(self@, user@, host_pattern@, object@),
    {
        str_eq(self.user.as_str(), user) && str_eq(self.host_pattern.as_str(), host_pattern)
            && self.object.same_object(object)
    }

    fn matches_user_host(&self, user: &str, host: &str) -> (r: bool)
        ensures
            r == matches_user_host_spec(self@, user@, host@),
    {
        str_eq(self.user.as_str(), user) && Self::match_host_pattern(
            self.host_pattern.as_str(),
            host,
        )
    }

    fn match_host_pattern(host_pattern: &str, host: &str) -> (r: bool)
        ensures
            r == match_host_pattern_spec(host_pattern@, host@),
    {
        if str_eq(host_pattern, "%") {
            return true;
        }
        str_eq(host_pattern, host)
    }

    /// Whether the entry holds every privilege available on its object.
    pub fn has_all_available_privileges(&self) -> (r: bool)
        ensures
            r == (self@.privileges & available_mask_spec(self@.object) == available_mask_spec(
                self@.object,
            )),
    {
        let all_available = self.object.available_privileges();
        self.privileges & all_available.mask == all_available.mask
    }
}

/// The grants a user holds, as an ordered list of entries.
#[derive(Debug, PartialEq, Eq)]
pub struct UserGrantSet {
    grants: Vec<GrantEntry>,
}

/// What granting does to the entries: every row keyed by the same user,
/// host pattern and object gains the privileges; if no row was keyed so,
/// a fresh row is appended.
pub open spec fn grant_spec(
    entries: Seq<GrantEntryView>,
    user: Seq<char>,
    host_pattern: Seq<char>,
    object: GrantObjectView,
    mask: u64,
) -> Seq<GrantEntryView> {
    let updated = entries.map_values(
        |e: GrantEntryView|
            if matches_entry_spec(e, user, host_pattern, object) {
                GrantEntryView { privileges: e.privileges | mask, ..e }
            } else {
                e
            },
    );
    if exists|i: int|
        0 <= i < entries.len() && matches_entry_spec(#[trigger] entries[i], user, host_pattern, object) {
        updated
    } else {
        updated.push(
            GrantEntryView { user, host_pattern, object, privileges: mask },
        )
    }
}

/// What revoking does to the entries: every keyed row has the privileges
/// toggled out, and rows left with no privilege disappear.
pub open spec fn revoke_spec(
    entries: Seq<GrantEntryView>,
    user: Seq<char>,
    host_pattern: Seq<char>,
    object: GrantObjectView,
    mask: u64,
) -> Seq<GrantEntryView>
    decreases entries.len(),
{
    if entries.len() == 0 {
        Seq::empty()
    } else {
        let rest = revoke_spec(entries.drop_last(), user, host_pattern, object, mask);
        let e = entries.last();
        let adjusted = if matches_entry_spec(e, user, host_pattern, object) {
            GrantEntryView { privileges: e.privileges ^ mask, ..e }
        } else {
            e
        };
        if adjusted.privileges == 0 {
            rest
        } else {
            rest.push(adjusted)
        }
    }
}

impl UserGrantSet {
    /// The entries, in order.
    pub closed spec fn entries_view(&self) -> Seq<GrantEntryView> {
        Seq::new(self.grants@.len(), |i: int| self.grants@[i]@)
    }

    /// A set holding nothing.
    pub fn empty() -> (r: UserGrantSet)
        ensures
            r.entries_view() == Seq::<GrantEntryView>::empty(),
    {
        let r = UserGrantSet { grants: Vec::new() };
        proof {
            assert(r.entries_view() =~= Seq::<GrantEntryView>::empty());
        }
        r
    }

    pub fn entries(&self) -> (r: &Vec<GrantEntry>)
        ensures
            r@.len() == self.entries_view().len(),
            forall|i: int| 0 <= i < r@.len() ==> (#[trigger] r@[i])@ == self.entries_view()[i],
    {
        &self.grants
    }

    /// Whether some entry grants `privilege` on `object` to `user` at
    /// `host`.
    #[verifier::loop_isolation(false)]
    pub fn verify_privilege(
        &self,
        user: &str,
        host: &str,
        object: &GrantObject,
        privilege: UserPrivilegeType,
    ) -> (r: bool)
        ensures
            r == exists|i: int|
                0 <= i < self.entries_view().len() && verify_privilege_spec(
                    #[trigger] self.entries_view()[i],
                    user@,
                    host@,
                    object@,
                    privilege,
                ),
    {
        let n = self.grants.len();
        let mut i: usize = 0;
        while i < n
            invariant
                i <= n,
                n == self.grants@.len(),
                forall|j: int|
                    0 <= j < i ==> !verify_privilege_spec(
                        #[trigger] self.entries_view()[j],
                        user@,
                        host@,
                        object@,
                        privilege,
                    ),
            decreases n - i,
        {
            if self.grants[i].verify_privilege(user, host, object, privilege) {
                proof {
                    assert(self.entries_view()[i as int] == self.grants@[i as int]@);
                }
                return true;
            }
            i = i + 1;
        }
        false
    }

    /// Grants privileges: the last writer wins into every keyed row, and
    /// a fresh row is appended when none was keyed so.
    #[verifier::loop_isolation(false)]
    pub fn grant_privileges(
        &mut self,
        user: &str,
        host_pattern: &str,
        object: &GrantObject,
        privileges: UserPrivilegeSet,
    )
        ensures
            final(self).entries_view() == grant_spec(
                old(self).entries_view(),
                user@,
                host_pattern@,
                object@,
                privileges.mask,
            ),
    {
        let ghost before = self.entries_view();
        let mask = privileges.mask;
        let mut new_grants: Vec<GrantEntry> = Vec::new();
        let mut changed = false;
        let n = self.grants.len();
        let mut i: usize = 0;
        while i < n
            invariant
                i <= n,
                n == self.grants@.len(),
                before == self.entries_view(),
                new_grants@.len() == i,
                changed == exists|j: int|
                    0 <= j < i && matches_entry_spec(
                        #[trigger] before[j],
                        user@,
                        host_pattern@,
                        object@,
                    ),
                forall|j: int|
                    0 <= j < i ==> (#[trigger] new_grants@[j])@ == (if matches_entry_spec(
                        before[j],
                        user@,
                        host_pattern@,
                        object@,
                    ) {
                        GrantEntryView { privileges: before[j].privileges | mask, ..before[j] }
                    } else {
                        before[j]
                    }),
            decreases n - i,
        {
            let mut grant = self.grants[i].clone();
            let keyed = grant.matches_entry(user, host_pattern, object);
            if keyed {
                grant.privileges = grant.privileges | mask;
                changed = true;
            }
            new_grants.push(grant);
            proof {
                if keyed {
                    assert(matches_entry_spec(before[i as int], user@, host_pattern@, object@));
                }
            }
            i = i + 1;
        }
        if !changed {
            new_grants.push(
                GrantEntry::new(
                    user.to_owned(),
                    host_pattern.to_owned(),
                    object.clone(),
                    privileges,
                ),
            );
        }
        self.grants = new_grants;
        proof {
            let after = grant_spec(before, user@, host_pattern@, object@, mask);
            assert(self.entries_view() =~= after);
        }
    }

    /// Revokes privileges: every keyed row has them toggled out, and rows
    /// left with no privilege disappear.
    #[verifier::loop_isolation(false)]
    pub fn revoke_privileges(
        &mut self,
        user: &str,
        host_pattern: &str,
        object: &GrantObject,
        privileges: UserPrivilegeSet,
    )
        ensures
            final(self).entries_view() == revoke_spec(
                old(self).entries_view(),
                user@,
                host_pattern@,
                object@,
                privileges.mask,
            ),
    {
        let ghost before = self.entries_view();
        let mask = privileges.mask;
        let mut kept: Vec<GrantEntry> = Vec::new();
        let n = self.grants.len();
        let mut i: usize = 0;
        while i < n
            invariant
                i <= n,
                n == self.grants@.len(),
                before == self.entries_view(),
                Seq::new(kept@.len(), |k: int| kept@[k]@) == revoke_spec(
                    before.take(i as int),
                    user@,
                    host_pattern@,
                    object@,
                    mask,
                ),
            decreases n - i,
        {
            proof {
                assert(before.take(i + 1).drop_last() =~= before.take(i as int));
                assert(before.take(i + 1).last() == before[i as int]);
            }
            let mut e = self.grants[i].clone();
            if e.matches_entry(user, host_pattern, object) {
                e.privileges = e.privileges ^ mask;
            }
            if e.privileges != 0 {
                kept.push(e);
            }
            proof {
                assert(Seq::new(kept@.len(), |k: int| kept@[k]@) =~= revoke_spec(
                    before.take(i + 1),
                    user@,
                    host_pattern@,
                    object@,
                    mask,
                ));
            }
            i = i + 1;
        }
        self.grants = kept;
        proof {
            assert(before.take(n as int) =~= before);
        }
    }
}


// ---------------------------------------------------------------------
// Textual rendering
// ---------------------------------------------------------------------

/// The display name of one privilege.
pub open spec fn priv_name_spec(p: UserPrivilegeType) -> Seq<char> {
    match p {
        UserPrivilegeType::Usage => "USAGE"@,
        UserPrivilegeType::Select => "SELECT"@,
        UserPrivilegeType::Insert => "INSERT"@,
        UserPrivilegeType::Update => "UPDATE"@,
        UserPrivilegeType::Delete => "DELETE"@,
        UserPrivilegeType::Create => "CREATE"@,
        UserPrivilegeType::Drop => "DROP"@,
        UserPrivilegeType::Alter => "ALTER"@,
        UserPrivilegeType::Super => "SUPER"@,
    }
}

/// Every privilege, in display order.
pub open spec fn all_privileges() -> Seq<UserPrivilegeType> {
    seq![
        UserPrivilegeType::Usage,
        UserPrivilegeType::Select,
        UserPrivilegeType::Insert,
        UserPrivilegeType::Update,
        UserPrivilegeType::Delete,
        UserPrivilegeType::Create,
        UserPrivilegeType::Drop,
        UserPrivilegeType::Alter,
        UserPrivilegeType::Super,
    ]
}

/// The names of the privileges a mask holds among the first `i`
/// positions of the display order.
pub open spec fn priv_names_spec(mask: u64, i: int) -> Seq<Seq<char>>
    decreases i,
{
    if i <= 0 {
        Seq::empty()
    } else {
        let pre = priv_names_spec(mask, i - 1);
        if mask & priv_bit_spec(all_privileges()[i - 1]) != 0 {
            pre + seq![priv_name_spec(all_privileges()[i - 1])]
        } else {
            pre
        }
    }
}

/// The privileges of a mask as text: their names joined with a comma.
pub open spec fn priv_set_text_spec(mask: u64) -> Seq<char> {
    join_names(priv_names_spec(mask, all_privileges().len() as int))
}

impl UserPrivilegeSet {
    /// The held privileges as text, comma-joined in display order.
    #[verifier::rlimit(100)]
    pub fn to_text(&self) -> (r: String)
        ensures
            r@ == priv_set_text_spec(self.mask),
    {
        let mut names: Vec<String> = Vec::new();
        proof {
            assert(names@.map_values(|n: String| n@) =~= priv_names_spec(self.mask, 0));
        }
        if self.mask & 1 != 0 {
            names.push("USAGE".to_owned());
        }
        proof {
            assert(names@.map_values(|n: String| n@) =~= priv_names_spec(self.mask, 1));
        }
        if self.mask & 2 != 0 {
            names.push("SELECT".to_owned());
        }
        proof {
            assert(names@.map_values(|n: String| n@) =~= priv_names_spec(self.mask, 2));
        }
        if self.mask & 4 != 0 {
            names.push("INSERT".to_owned());
        }
        proof {
            assert(names@.map_values(|n: String| n@) =~= priv_names_spec(self.mask, 3));
        }
        if self.mask & 8 != 0 {
            names.push("UPDATE".to_owned());
        }
        proof {
            assert(names@.map_values(|n: String| n@) =~= priv_names_spec(self.mask, 4));
        }
        if self.mask & 16 != 0 {
            names.push("DELETE".to_owned());
        }
        proof {
            assert(names@.map_values(|n: String| n@) =~= priv_names_spec(self.mask, 5));
        }
        if self.mask & 32 != 0 {
            names.push("CREATE".to_owned());
        }
        proof {
            assert(names@.map_values(|n: String| n@) =~= priv_names_spec(self.mask, 6));
        }
        if self.mask & 64 != 0 {
            names.push("DROP".to_owned());
        }
        proof {
            assert(names@.map_values(|n: String| n@) =~= priv_names_spec(self.mask, 7));
        }
        if self.mask & 128 != 0 {
            names.push("ALTER".to_owned());
        }
        proof {
            assert(names@.map_values(|n: String| n@) =~= priv_names_spec(self.mask, 8));
        }
        if self.mask & 256 != 0 {
            names.push("SUPER".to_owned());
        }
        proof {
            assert(names@.map_values(|n: String| n@) =~= priv_names_spec(self.mask, 9));
        }
        join_text(&names)
    }
    }

/// Joins rendered names with a comma and a space.
fn join_text(names: &Vec<String>) -> (r: String)
    ensures
        r@ == join_names(names@.map_values(|n: String| n@)),
{
    let ghost gnames: Seq<Seq<char>> = names@.map_values(|n: String| n@);
    let mut s = String::new();
    let mut i: usize = 0;
    while i < names.len()
        invariant
            gnames == names@.map_values(|n: String| n@),
            i <= names@.len(),
            s@ == join_names(gnames.take(i as int)),
        decreases names@.len() - i,
    {
        if i > 0 {
            s.append(", ");
        }
        s.append(names[i].as_str());
        proof {
            assert(gnames.take(i + 1).drop_last() =~= gnames.take(i as int));
            assert(gnames.take(i + 1).last() == gnames[i as int]);
            if i == 0 {
                assert(gnames.take(1) =~= seq![gnames[0]]);
            }
            assert(s@ =~= join_names(gnames.take(i + 1)));
        }
        i = i + 1;
    }
    proof {
        assert(gnames.take(names@.len() as int) =~= gnames);
    }
    s
}

/// The text of a grant object: the global star pair, a quoted database
/// with a star, or a quoted database and table.
pub open spec fn object_text_spec(o: GrantObjectView) -> Seq<char> {
    match o {
        GrantObjectView::Global => "*.*"@,
        GrantObjectView::Database(db) => "'"@ + db + "'.*"@,
        GrantObjectView::Table(db, t) => "'"@ + db + "'.'"@ + t + "'"@,
    }
}

impl GrantObject {
    /// Renders the object for diagnostics and grant statements.
    pub fn to_text(&self) -> (r: String)
        ensures
            r@ == object_text_spec(self@),
    {
        match self {
            GrantObject::Global => "*.*".to_owned(),
            GrantObject::Database(db) => {
                let mut s = "'".to_owned();
                s.append(db.as_str());
                s.append("'.*");
                proof {
                    assert(s@ =~= object_text_spec(self@));
                }
                s
            },
            GrantObject::Table(db, t) => {
                let mut s = "'".to_owned();
                s.append(db.as_str());
                s.append("'.'");
                s.append(t.as_str());
                s.append("'");
                proof {
                    assert(s@ =~= object_text_spec(self@));
                }
                s
            },
        }
    }
}

/// The text of a grant entry: the grant statement that would create it,
/// with `ALL` standing for every privilege available on its object.
pub open spec fn entry_text_spec(e: GrantEntryView) -> Seq<char> {
    let privileges_text = if e.privileges & available_mask_spec(e.object) == available_mask_spec(
        e.object,
    ) {
        "ALL"@
    } else {
        priv_set_text_spec(e.privileges)
    };
    "GRANT "@ + privileges_text + " ON "@ + object_text_spec(e.object) + " TO '"@ + e.user + "'@'"@
        + e.host_pattern + "'"@
}

impl GrantEntry {
    /// Renders the grant statement that would create this entry.
    pub fn to_text(&self) -> (r: String)
        ensures
            r@ == entry_text_spec(self@),
    {
        let privileges = UserPrivilegeSet { mask: self.privileges };
        let privileges_text = if self.has_all_available_privileges() {
            "ALL".to_owned()
        } else {
            privileges.to_text()
        };
        let mut s = "GRANT ".to_owned();
        s.append(privileges_text.as_str());
        s.append(" ON ");
        let object_text = self.object.to_text();
        s.append(object_text.as_str());
        s.append(" TO '");
        s.append(self.user.as_str());
        s.append("'@'");
        s.append(self.host_pattern.as_str());
        s.append("'");
        proof {
            assert(s@ =~= entry_text_spec(self@));
        }
        s
    }
}

} // verus!
