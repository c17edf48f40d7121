//! Users: their roles and their avatars.
use std::cmp::Ordering;

use md5::{Digest, Md5};
use vstd::prelude::*;
use vstd::std_specs::cmp::PartialOrdSpecImpl;
use vstd::std_specs::convert::FromSpecImpl;
use vstd::string::*;

use crate::text;
use crate::text::{hex_string, lowercase_str, trim};

verus! {

/// Where a user's picture comes from.
#[derive(Debug, Clone, Copy, PartialEq, Eq, Structural)]
pub enum AvatarProvider {
    Cravatar,
    Catavatar,
}

impl Default for AvatarProvider {
    fn default() -> (r: Self)
        ensures
            r is Cravatar,
    {
        AvatarProvider::Cravatar
    }
}

impl AvatarProvider {
    pub open spec fn code_of(self) -> i16 {
        match self {
            AvatarProvider::Cravatar => 0,
            AvatarProvider::Catavatar => 1,
        }
    }

    /// The provider that a number stands for.
    pub fn from_code(code: i16) -> (r: Option<Self>)
        ensures
            match r {
                Some(p) => p.code_of() == code,
                None => code != 0 && code != 1,
            },
    {
        if code == 0 {
            Some(AvatarProvider::Cravatar)
        } else if code == 1 {
            Some(AvatarProvider::Catavatar)
        } else {
            None
        }
    }

    /// The provider that a number in storage stands for; unknown numbers stand for the default.
    pub open spec fn stored(code: i16) -> Self {
        if code == 1 {
            AvatarProvider::Catavatar
        } else {
            AvatarProvider::Cravatar
        }
    }

    /// The provider that a number in storage stands for; unknown numbers stand for the default.
    pub fn from_stored(code: i16) -> (r: Self)
        ensures
            r == Self::stored(code),
    {
        match Self::from_code(code) {
            Some(provider) => provider,
            None => Self::default(),
        }
    }
}

impl From<AvatarProvider> for i16 {
    fn from(value: AvatarProvider) -> (r: i16) {
        match value {
            AvatarProvider::Cravatar => 0,
            AvatarProvider::Catavatar => 1,
        }
    }
}

impl FromSpecImpl<AvatarProvider> for i16 {
    open spec fn obeys_from_spec() -> bool {
        true
    }

    open spec fn from_spec(value: AvatarProvider) -> i16 {
        value.code_of()
    }
}

/// The MD5 digest of some bytes.
pub uninterp spec fn md5_digest(bytes: Seq<u8>) -> Seq<u8>;

/// `md5::Md5::digest`: the digest of the whole input, which is 16 bytes.
#[verifier::external_body]
fn md5_of(bytes: &[u8]) -> (r: Vec<u8>)
    ensures
        r@ == md5_digest(bytes@),
        r@.len() == 16,
{
    Md5::digest(bytes).to_vec()
}

/// The address of a picture, given the digest of the user's address.
pub open spec fn avatar_address(digest: Seq<u8>, provider: AvatarProvider) -> Seq<char> {
    match provider {
        AvatarProvider::Cravatar => "https://cn.cravatar.com/avatar/"@ + text::hex(digest)
            + ".png?d=identicon"@,
        AvatarProvider::Catavatar => "https://puzzle.cat/api/users/avatar/public/"@ + text::hex(digest),
    }
}

/// The digest under which a user's picture is found: that of the trimmed lowercase mail address.
pub open spec fn mail_digest(email: Seq<char>) -> Seq<u8> {
    md5_digest(vstd::utf8::encode_utf8(text::str_lowercase(text::trimmed(email))))
}

/// The address of a picture, given the digest of the user's mail address.
pub fn avatar_url_of_digest(digest: &[u8], provider: AvatarProvider) -> (r: String)
    ensures
        r@ == avatar_address(digest@, provider),
{
    let hash = hex_string(digest);
    match provider {
        AvatarProvider::Cravatar => {
            let mut r = "https://cn.cravatar.com/avatar/".to_owned();
            r.append(&hash);
            r.append(".png?d=identicon");
            r
        },
        AvatarProvider::Catavatar => {
            let mut r = "https://puzzle.cat/api/users/avatar/public/".to_owned();
            r.append(&hash);
            r
        },
    }
}

/// The address of a user's picture.
pub fn avatar_url(email: &str, provider: AvatarProvider) -> (r: String)
    ensures
        r@ == avatar_address(mail_digest(email@), provider),
{
    let normalized = lowercase_str(&trim(email));
    let digest = md5_of(normalized.as_str().as_bytes());
    avatar_url_of_digest(&digest, provider)
}

/// What a user may do.
#[derive(Debug, Clone, Copy, PartialEq, Eq, Structural)]
pub enum RbUserRole {
    Banned,
    User,
    Moderator,
    Admin,
    Root,
    /// A code that names no role.
    Invalid(i16),
}

impl RbUserRole {
    /// The number that stands for a role in storage.
    pub open spec fn code_of(self) -> i16 {
        match self {
            RbUserRole::Banned => 0,
            RbUserRole::User => 1,
            RbUserRole::Moderator => 2,
            RbUserRole::Admin => 3,
            RbUserRole::Root => 4,
            RbUserRole::Invalid(code) => code,
        }
    }

    /// The role that a number in storage stands for.
    pub open spec fn from_code(code: i16) -> Self {
        if code == 0 {
            RbUserRole::Banned
        } else if code == 1 {
            RbUserRole::User
        } else if code == 2 {
            RbUserRole::Moderator
        } else if code == 3 {
            RbUserRole::Admin
        } else if code == 4 {
            RbUserRole::Root
        } else {
            RbUserRole::Invalid(code)
        }
    }

    /// A role is the one that its own number stands for, unless it is an invalid one that holds the
    /// number of a role.
    pub proof fn codes_read_back(self)
        requires
            self matches RbUserRole::Invalid(code) ==> !(0 <= code <= 4),
        ensures
            Self::from_code(self.code_of()) == self,
    {
    }

    /// A number in storage is that of the role that it stands for.
    pub proof fn roles_keep_their_code(code: i16)
        ensures
            Self::from_code(code).code_of() == code,
    {
    }

    pub open spec fn valid(self) -> bool {
        !(self is Invalid)
    }

    /// Whether the code names a role.
    pub fn is_valid(&self) -> (r: bool)
        ensures
            r == self.valid(),
    {
        !matches!(self, Self::Invalid(_))
    }

    pub open spec fn moderates(self) -> bool {
        self is Moderator || self is Admin || self is Root
    }

    pub fn is_moderator(&self) -> (r: bool)
        ensures
            r == self.moderates(),
    {
        matches!(self, Self::Moderator | Self::Admin | Self::Root)
    }

    pub open spec fn administers(self) -> bool {
        self is Admin || self is Root
    }

    pub fn is_admin(&self) -> (r: bool)
        ensures
            r == self.administers(),
    {
        matches!(self, Self::Admin | Self::Root)
    }

    pub fn is_root(&self) -> (r: bool)
        ensures
            r == (self is Root),
    {
        matches!(self, Self::Root)
    }

    /// Whether a role ranks below another; an invalid code is not ranked.
    pub open spec fn below(self, other: Self) -> bool {
        self.valid() && other.valid() && self.code_of() < other.code_of()
    }

    /// Whether a role may turn a user's role, if there is one, into another.
    pub open spec fn may_change_role(self, current: Option<Self>, requested: Self) -> bool {
        if current == Some(requested) {
            true
        } else if current == Some(RbUserRole::Root) || requested is Root {
            false
        } else {
            self is Root || ((current matches Some(role) ==> role.below(RbUserRole::Admin))
                && requested.below(RbUserRole::Admin))
        }
    }

    /// Whether this role may turn a user's role, if there is one, into another.
    pub fn can_change_role(&self, current: Option<Self>, requested: Self) -> (r: bool)
        ensures
            r == self.may_change_role(current, requested),
    {
        match current {
            Some(role) => {
                if role == requested {
                    return true;
                }
                if role == Self::Root || requested == Self::Root {
                    return false;
                }
                self.is_root() || (role < Self::Admin && requested < Self::Admin)
            },
            None => {
                if requested == Self::Root {
                    return false;
                }
                self.is_root() || requested < Self::Admin
            },
        }
    }

    /// Whether this role may manage the credentials of another.
    pub fn can_manage_credentials(&self, target: Self) -> (r: bool)
        ensures
            r == target.below(*self),
    {
        target < *self
    }
}

impl From<i16> for RbUserRole {
    fn from(code: i16) -> (r: Self) {
        if code == 0 {
            RbUserRole::Banned
        } else if code == 1 {
            RbUserRole::User
        } else if code == 2 {
            RbUserRole::Moderator
        } else if code == 3 {
            RbUserRole::Admin
        } else if code == 4 {
            RbUserRole::Root
        } else {
            RbUserRole::Invalid(code)
        }
    }
}

impl FromSpecImpl<i16> for RbUserRole {
    open spec fn obeys_from_spec() -> bool {
        true
    }

    open spec fn from_spec(code: i16) -> Self {
        RbUserRole::from_code(code)
    }
}

impl From<RbUserRole> for i16 {
    fn from(value: RbUserRole) -> (r: i16) {
        match value {
            RbUserRole::Banned => 0,
            RbUserRole::User => 1,
            RbUserRole::Moderator => 2,
            RbUserRole::Admin => 3,
            RbUserRole::Root => 4,
            RbUserRole::Invalid(code) => code,
        }
    }
}

impl FromSpecImpl<RbUserRole> for i16 {
    open spec fn obeys_from_spec() -> bool {
        true
    }

    open spec fn from_spec(value: RbUserRole) -> i16 {
        value.code_of()
    }
}

impl PartialOrd for RbUserRole {
    fn partial_cmp(&self, other: &Self) -> (r: Option<Ordering>) {
        if self.is_valid() && other.is_valid() {
            let lhs: i16 = (*self).into();
            let rhs: i16 = (*other).into();
            if lhs < rhs {
                Some(Ordering::Less)
            } else if lhs > rhs {
                Some(Ordering::Greater)
            } else {
                Some(Ordering::Equal)
            }
        } else {
            None
        }
    }
}

impl PartialOrdSpecImpl for RbUserRole {
    open spec fn obeys_partial_cmp_spec() -> bool {
        true
    }

    open spec fn partial_cmp_spec(&self, other: &Self) -> Option<Ordering> {
        if self.valid() && other.valid() {
            if self.code_of() < other.code_of() {
                Some(Ordering::Less)
            } else if self.code_of() > other.code_of() {
                Some(Ordering::Greater)
            } else {
                Some(Ordering::Equal)
            }
        } else {
            None
        }
    }
}

/// Administrators neither make nor unmake administrators, nor manage their credentials.
pub proof fn administrators_only_manage_lower_roles(current: RbUserRole, requested: RbUserRole)
    requires
        current != requested,
        current.administers() || requested.administers(),
    ensures
        !RbUserRole::Admin.may_change_role(Some(current), requested),
        requested.administers() ==> !RbUserRole::Admin.may_change_role(None, requested),
        !(if current.administers() {
            current.below(RbUserRole::Admin)
        } else {
            requested.below(RbUserRole::Admin)
        }),
{
}

/// Nobody becomes root, and root stays root, by a change of roles.
pub proof fn root_is_never_granted_nor_taken(
    actor: RbUserRole,
    current: Option<RbUserRole>,
    requested: RbUserRole,
)
    requires
        current != Some(requested),
        current == Some(RbUserRole::Root) || requested is Root,
    ensures
        !actor.may_change_role(current, requested),
{
}

/// The order of roles is strict, and follows from one role to the next.
pub proof fn roles_are_strictly_ordered(a: RbUserRole, b: RbUserRole, c: RbUserRole)
    ensures
        !a.below(a),
        a.below(b) ==> !b.below(a),
        a.below(b) && b.below(c) ==> a.below(c),
        a.valid() && b.valid() ==> a.below(b) || b.below(a) || a == b,
        !a.valid() ==> !a.below(b) && !b.below(a),
{
}

/// Roles come back from the numbers that they are stored as, and rise with them: banned, user,
/// moderator, administrator, root. Any other number stands for no role.
pub proof fn roles_come_back(code: i16)
    ensures
        RbUserRole::from_code(code).code_of() == code,
        RbUserRole::from_code(code).valid() <==> 0 <= code <= 4,
        RbUserRole::Banned.below(RbUserRole::User),
        RbUserRole::User.below(RbUserRole::Moderator),
        RbUserRole::Moderator.below(RbUserRole::Admin),
        RbUserRole::Admin.below(RbUserRole::Root),
        RbUserRole::from_code(code).moderates() <==> 2 <= code <= 4,
        RbUserRole::from_code(code).administers() <==> 3 <= code <= 4,
{
}

/// Who may change a role: it may always stay as it is; nobody grants or takes root; root changes all
/// others, and whoever else changes roles changes roles below administrators into such roles.
pub proof fn roles_are_changed_from_above(
    actor: RbUserRole,
    current: RbUserRole,
    requested: RbUserRole,
)
    ensures
        actor.may_change_role(Some(current), current),
        current != requested && (current == RbUserRole::Root || requested == RbUserRole::Root)
            ==> !actor.may_change_role(Some(current), requested),
        current != RbUserRole::Root && requested != RbUserRole::Root
            ==> RbUserRole::Root.may_change_role(Some(current), requested),
        requested != RbUserRole::Root ==> RbUserRole::Root.may_change_role(None, requested),
        actor != RbUserRole::Root && current != requested ==> (actor.may_change_role(
            Some(current),
            requested,
        ) <==> 0 <= current.code_of() <= 2 && current.valid() && 0 <= requested.code_of() <= 2
            && requested.valid()),
        actor != RbUserRole::Root ==> (actor.may_change_role(None, requested) <==> 0
            <= requested.code_of() <= 2 && requested.valid()),
{
}

/// Providers of pictures come back from the numbers that they are stored as, and an unknown number
/// stands for the first.
pub proof fn providers_come_back(provider: AvatarProvider, code: i16)
    ensures
        AvatarProvider::stored(provider.code_of()) == provider,
        code != 1 ==> AvatarProvider::stored(code) == AvatarProvider::Cravatar,
        AvatarProvider::stored(1) == AvatarProvider::Catavatar,
{
}

/// The address of a picture holds the digest, and two digests have two addresses.
pub proof fn pictures_are_found_by_digest(a: Seq<u8>, b: Seq<u8>, provider: AvatarProvider)
    requires
        avatar_address(a, provider) == avatar_address(b, provider),
    ensures
        text::hex(a) == text::hex(b),
        a == b,
{
    let (x, y) = (text::hex(a), text::hex(b));
    let (p, q) = (avatar_address(a, provider), avatar_address(b, provider));
    match provider {
        AvatarProvider::Cravatar => {
            let n = "https://cn.cravatar.com/avatar/"@.len() as int;
            let t = ".png?d=identicon"@.len() as int;
            assert(p.subrange(n, p.len() - t) =~= x);
            assert(q.subrange(n, q.len() - t) =~= y);
        },
        AvatarProvider::Catavatar => {
            let n = "https://puzzle.cat/api/users/avatar/public/"@.len() as int;
            assert(p.skip(n) =~= x);
            assert(q.skip(n) =~= y);
        },
    }
    text::hex_reads_back(a, b);
}

} // verus!
