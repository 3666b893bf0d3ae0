//! The catalog of organization scopes: the fixed list of permissions, the
//! class of each (granted to every member, or to admins only), its name on
//! the wire and its description.

use vstd::prelude::*;

verus! {

/// A permission that a member can hold within one organization.
#[derive(Debug, Clone, Copy, PartialEq, Eq, Structural)]
pub enum OrgScope {
    /// Allows the user to add a user to the org
    AddUser,
    /// Allows the user to view the organization
    GetOrg,
    /// ALlows the user to delete the organization
    RemoveOrg,
    /// Allows the user to update the organization
    UpdateOrg,
}

/// The failure of [`OrgScope::from_str`]: the text names no scope of the catalog.
#[derive(Debug, Clone, Copy, PartialEq, Eq, Structural)]
pub struct UnknownScope;

/// Whether two string slices hold the same text.
pub fn same_text(a: &str, b: &str) -> (r: bool)
    ensures
        r == (a@ == b@),
{
    let x = a.to_owned();
    let y = b.to_owned();
    x == y
}

impl OrgScope {
    /// Every scope of the catalog, in declaration order.
    pub open spec fn all() -> Seq<OrgScope> {
        seq![OrgScope::AddUser, OrgScope::GetOrg, OrgScope::RemoveOrg, OrgScope::UpdateOrg]
    }

    /// The scopes that every member is granted, in declaration order.
    pub open spec fn defaults() -> Seq<OrgScope> {
        seq![OrgScope::GetOrg, OrgScope::RemoveOrg, OrgScope::UpdateOrg]
    }

    /// The scopes that only an admin is granted automatically, in declaration order.
    pub open spec fn admin_only() -> Seq<OrgScope> {
        seq![OrgScope::AddUser]
    }

    /// The position of a scope in the catalog.
    pub open spec fn ordinal(self) -> int {
        match self {
            OrgScope::AddUser => 0,
            OrgScope::GetOrg => 1,
            OrgScope::RemoveOrg => 2,
            OrgScope::UpdateOrg => 3,
        }
    }

    /// The class of a scope: `true` for an admin-only scope, `false` for a default one.
    pub open spec fn is_admin_only(self) -> bool {
        match self {
            OrgScope::AddUser => true,
            OrgScope::GetOrg => false,
            OrgScope::RemoveOrg => false,
            OrgScope::UpdateOrg => false,
        }
    }

    /// The canonical identifier of a scope, as it is exchanged and stored.
    pub open spec fn name(self) -> Seq<char> {
        match self {
            OrgScope::AddUser => "AddUser"@,
            OrgScope::GetOrg => "GetOrg"@,
            OrgScope::RemoveOrg => "RemoveOrg"@,
            OrgScope::UpdateOrg => "UpdateOrg"@,
        }
    }

    /// The human description of a scope.
    pub open spec fn description_text(self) -> Seq<char> {
        match self {
            OrgScope::AddUser => "Allows the user to add a user to the org"@,
            OrgScope::GetOrg => "Allows the user to view the organization"@,
            OrgScope::RemoveOrg => "ALlows the user to delete the organization"@,
            OrgScope::UpdateOrg => "Allows the user to update the organization"@,
        }
    }

    /// All scopes, in a stable order.
    pub fn variants() -> (r: Vec<OrgScope>)
        ensures
            r@ == Self::all(),
    {
        vec![OrgScope::AddUser, OrgScope::GetOrg, OrgScope::RemoveOrg, OrgScope::UpdateOrg]
    }

    /// The scopes granted to every member.
    pub fn default_scopes() -> (r: Vec<OrgScope>)
        ensures
            r@ == Self::defaults(),
    {
        vec![OrgScope::GetOrg, OrgScope::RemoveOrg, OrgScope::UpdateOrg]
    }

    /// The scopes granted automatically to admins only.
    pub fn admin_scopes() -> (r: Vec<OrgScope>)
        ensures
            r@ == Self::admin_only(),
    {
        vec![OrgScope::AddUser]
    }

    /// Whether the scope is admin-only.
    pub fn is_admin(&self) -> (r: bool)
        ensures
            r == self.is_admin_only(),
    {
        match self {
            OrgScope::AddUser => true,
            OrgScope::GetOrg => false,
            OrgScope::RemoveOrg => false,
            OrgScope::UpdateOrg => false,
        }
    }

    /// The description of one scope.
    pub fn description(&self) -> (r: &'static str)
        ensures
            r@ == self.description_text(),
    {
        match self {
            OrgScope::AddUser => "Allows the user to add a user to the org",
            OrgScope::GetOrg => "Allows the user to view the organization",
            OrgScope::RemoveOrg => "ALlows the user to delete the organization",
            OrgScope::UpdateOrg => "Allows the user to update the organization",
        }
    }

    /// Every scope with its description, in catalog order.
    pub fn descriptions() -> (r: Vec<(OrgScope, &'static str)>)
        ensures
            r@.len() == Self::all().len(),
            forall|i: int|
                0 <= i < r@.len() ==> r@[i].0 == Self::all()[i] && r@[i].1@
                    == Self::all()[i].description_text(),
    {
        let all = Self::variants();
        let mut out: Vec<(OrgScope, &'static str)> = Vec::new();
        let mut i: usize = 0;
        while i < all.len()
            invariant
                i <= all@.len(),
                all@ == Self::all(),
                out@.len() == i,
                forall|j: int|
                    0 <= j < i ==> out@[j].0 == all@[j] && out@[j].1@ == all@[j].description_text(),
            decreases all@.len() - i,
        {
            let scope = all[i];
            out.push((scope, scope.description()));
            i = i + 1;
        }
        out
    }

    /// The canonical identifier of the scope.
    pub fn to_string(&self) -> (r: String)
        ensures
            r@ == self.name(),
    {
        match self {
            OrgScope::AddUser => String::from_str("AddUser"),
            OrgScope::GetOrg => String::from_str("GetOrg"),
            OrgScope::RemoveOrg => String::from_str("RemoveOrg"),
            OrgScope::UpdateOrg => String::from_str("UpdateOrg"),
        }
    }

    /// The scope that a text names: the one whose canonical identifier is
    /// exactly that text, if there is one.
    pub open spec fn parse(text: Seq<char>) -> Option<OrgScope> {
        if text == OrgScope::AddUser.name() {
            Some(OrgScope::AddUser)
        } else if text == OrgScope::GetOrg.name() {
            Some(OrgScope::GetOrg)
        } else if text == OrgScope::RemoveOrg.name() {
            Some(OrgScope::RemoveOrg)
        } else if text == OrgScope::UpdateOrg.name() {
            Some(OrgScope::UpdateOrg)
        } else {
            None
        }
    }

    /// Parses a canonical identifier: exact, case-sensitive match against
    /// the names of the catalog.
    pub fn from_str(s: &str) -> (r: Result<OrgScope, UnknownScope>)
        ensures
            r == match Self::parse(s@) {
                Some(scope) => Ok::<OrgScope, UnknownScope>(scope),
                None => Err::<OrgScope, UnknownScope>(UnknownScope),
            },
    {
        if same_text(s, "AddUser") {
            Ok(OrgScope::AddUser)
        } else if same_text(s, "GetOrg") {
            Ok(OrgScope::GetOrg)
        } else if same_text(s, "RemoveOrg") {
            Ok(OrgScope::RemoveOrg)
        } else if same_text(s, "UpdateOrg") {
            Ok(OrgScope::UpdateOrg)
        } else {
            Err(UnknownScope)
        }
    }
}

/// Two scopes with the same name are the same scope.
pub proof fn lemma_names_distinct(a: OrgScope, b: OrgScope)
    ensures
        a.name() == b.name() ==> a == b,
{
    reveal_strlit("AddUser");
    reveal_strlit("GetOrg");
    reveal_strlit("RemoveOrg");
    reveal_strlit("UpdateOrg");
    assert("AddUser"@.len() == 7 && "GetOrg"@.len() == 6);
    assert("RemoveOrg"@.len() == 9 && "UpdateOrg"@.len() == 9);
    assert("RemoveOrg"@[0] == 'R' && "UpdateOrg"@[0] == 'U');
}

/// Whether a list of scopes follows the order of the catalog, each scope at
/// most once.
pub open spec fn in_catalog_order(list: Seq<OrgScope>) -> bool {
    forall|i: int, j: int| 0 <= i < j < list.len() ==> list[i].ordinal() < list[j].ordinal()
}

/// Every scope is in the catalog exactly once, at its ordinal, and the two classes split it:
/// a scope is among the defaults exactly when it is not admin-only, and among
/// the admin-only scopes exactly when it is.
pub proof fn lemma_catalog_partition(scope: OrgScope)
    ensures
        OrgScope::all().contains(scope),
        0 <= scope.ordinal() < OrgScope::all().len(),
        OrgScope::all()[scope.ordinal()] == scope,
        OrgScope::all().no_duplicates(),
        OrgScope::defaults().contains(scope) <==> !scope.is_admin_only(),
        OrgScope::admin_only().contains(scope) <==> scope.is_admin_only(),
        OrgScope::defaults().no_duplicates(),
        OrgScope::admin_only().no_duplicates(),
{
    let all = OrgScope::all();
    assert(all[0] == OrgScope::AddUser);
    assert(all[1] == OrgScope::GetOrg);
    assert(all[2] == OrgScope::RemoveOrg);
    assert(all[3] == OrgScope::UpdateOrg);
    let d = OrgScope::defaults();
    assert(d[0] == OrgScope::GetOrg);
    assert(d[1] == OrgScope::RemoveOrg);
    assert(d[2] == OrgScope::UpdateOrg);
    let a = OrgScope::admin_only();
    assert(a[0] == OrgScope::AddUser);
}

/// A text parses to a scope exactly when it is that scope's name; so parsing
/// the name that a scope prints gives the scope back, and a text that is no
/// scope's name is refused.
pub proof fn lemma_parse_inverts_print(text: Seq<char>, scope: OrgScope)
    ensures
        OrgScope::parse(text) == Some(scope) <==> text == scope.name(),
        OrgScope::parse(scope.name()) == Some(scope),
        OrgScope::parse(text) is None <==> forall|other: OrgScope| other.name() != text,
{
    lemma_names_distinct(scope, OrgScope::AddUser);
    lemma_names_distinct(scope, OrgScope::GetOrg);
    lemma_names_distinct(scope, OrgScope::RemoveOrg);
    lemma_names_distinct(scope, OrgScope::UpdateOrg);
    if OrgScope::parse(text) is Some {
        let found = OrgScope::parse(text)->Some_0;
        assert(found.name() == text);
    }
}

} // verus!
