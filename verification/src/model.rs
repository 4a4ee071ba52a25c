//! The records that the rules read: users, adverts with their
//! specifications, reviews, favorites, and the rating of an advert's owner.

use vstd::prelude::*;
use crate::failure::Failure;

verus! {

/// What a user may do beyond their own listings.
#[derive(Clone, Copy, Debug, PartialEq, Eq, Structural)]
pub enum Role {
    Admin,
    User,
    Moderator,
}

impl Default for Role {
    fn default() -> (r: Role)
        ensures
            r == Role::User,
    {
        Role::User
    }
}

impl Role {
    /// Admins and moderators may remove any listing.
    pub open spec fn is_staff(self) -> bool {
        self == Role::Admin || self == Role::Moderator
    }

    /// Tests [`Role::is_staff`].
    pub fn staff(&self) -> (r: bool)
        ensures
            r == self.is_staff(),
    {
        match self {
            Role::Admin => true,
            Role::Moderator => true,
            Role::User => false,
        }
    }
}

/// A user's identity and credentials.
#[derive(Debug)]
pub struct User {
    pub id: i32,
    pub email: Option<String>,
    pub phone: Option<String>,
    pub password_hash: Option<String>,
    /// Token of an external identity provider, for accounts without a password.
    pub external_identity: Option<String>,
    pub name: Option<String>,
    pub surname: Option<String>,
    pub company_name: Option<String>,
    pub avatar_url: Option<String>,
    pub role: Role,
    pub banned: bool,
    pub email_verified: bool,
}

impl User {
    /// A user can be reached (email or phone) and can prove who they are
    /// (password or external identity).
    pub open spec fn well_formed(&self) -> bool {
        &&& (self.email is Some || self.phone is Some)
        &&& (self.password_hash is Some || self.external_identity is Some)
    }

    /// Builds a new, unverified user with the default role. Refuses, with
    /// `Validation`, a user without a channel or without a credential.
    pub fn new(
        id: i32,
        email: Option<String>,
        phone: Option<String>,
        password_hash: Option<String>,
        external_identity: Option<String>,
    ) -> (r: Result<User, Failure>)
        ensures
            r is Ok <==> (email is Some || phone is Some) && (password_hash is Some
                || external_identity is Some),
            r is Err ==> r == Err::<User, Failure>(Failure::Validation),
            r matches Ok(u) ==> u.well_formed() && u.id == id && u.email == email && u.phone
                == phone && u.password_hash == password_hash && u.external_identity
                == external_identity && u.name is None && u.surname is None && u.company_name is None
                && u.avatar_url is None && u.role == Role::User && !u.banned && !u.email_verified,
    {
        if email.is_none() && phone.is_none() {
            return Err(Failure::Validation);
        }
        if password_hash.is_none() && external_identity.is_none() {
            return Err(Failure::Validation);
        }
        Ok(
            User {
                id,
                email,
                phone,
                password_hash,
                external_identity,
                name: None,
                surname: None,
                company_name: None,
                avatar_url: None,
                role: Role::User,
                banned: false,
                email_verified: false,
            },
        )
    }
}

/// The user that `users` has for an address: the first with that address.
pub open spec fn user_with_email(users: Seq<User>, email: Seq<char>) -> Option<User>
    decreases users.len(),
{
    if users.len() == 0 {
        None
    } else if users[0].email matches Some(e) && e@ == email {
        Some(users[0])
    } else {
        user_with_email(users.drop_first(), email)
    }
}

/// The user that `users` has for a phone number: the first with that number.
pub open spec fn user_with_phone(users: Seq<User>, phone: Seq<char>) -> Option<User>
    decreases users.len(),
{
    if users.len() == 0 {
        None
    } else if users[0].phone matches Some(p) && p@ == phone {
        Some(users[0])
    } else {
        user_with_phone(users.drop_first(), phone)
    }
}

/// Looks a user up by their address.
pub fn find_by_email<'a>(users: &'a Vec<User>, email: &str) -> (r: Option<&'a User>)
    ensures
        match r {
            Some(u) => user_with_email(users@, email@) == Some(*u),
            None => user_with_email(users@, email@) is None,
        },
{
    let wanted = email.to_owned();
    let mut i: usize = 0;
    assert(users@.skip(0) =~= users@);
    while i < users.len()
        invariant
            i <= users@.len(),
            wanted@ == email@,
            user_with_email(users@, email@) == user_with_email(users@.skip(i as int), email@),
        decreases users@.len() - i,
    {
        assert(users@.skip(i as int).drop_first() =~= users@.skip(i + 1));
        let hit = match &users[i].email {
            Some(e) => *e == wanted,
            None => false,
        };
        if hit {
            return Some(&users[i]);
        }
        i += 1;
    }
    None
}

/// Looks a user up by their phone number.
pub fn find_by_phone<'a>(users: &'a Vec<User>, phone: &str) -> (r: Option<&'a User>)
    ensures
        match r {
            Some(u) => user_with_phone(users@, phone@) == Some(*u),
            None => user_with_phone(users@, phone@) is None,
        },
{
    let wanted = phone.to_owned();
    let mut i: usize = 0;
    assert(users@.skip(0) =~= users@);
    while i < users.len()
        invariant
            i <= users@.len(),
            wanted@ == phone@,
            user_with_phone(users@, phone@) == user_with_phone(users@.skip(i as int), phone@),
        decreases users@.len() - i,
    {
        assert(users@.skip(i as int).drop_first() =~= users@.skip(i + 1));
        let hit = match &users[i].phone {
            Some(p) => *p == wanted,
            None => false,
        };
        if hit {
            return Some(&users[i]);
        }
        i += 1;
    }
    None
}

/// Looks a user up by what they log in with: their address, or else their
/// phone number.
pub fn find_by_email_or_phone<'a>(users: &'a Vec<User>, key: &str) -> (r: Option<&'a User>)
    ensures
        match r {
            Some(u) => Some(*u) == (match user_with_email(users@, key@) {
                Some(found) => Some(found),
                None => user_with_phone(users@, key@),
            }),
            None => user_with_email(users@, key@) is None && user_with_phone(users@, key@) is None,
        },
{
    match find_by_email(users, key) {
        Some(u) => Some(u),
        None => find_by_phone(users, key),
    }
}

/// One key/value attribute of an advert, such as color = red.
#[derive(Debug)]
pub struct Specification {
    pub key: String,
    pub value: String,
}

/// A listing, with what the rules read of it. Prices are in minor currency
/// units, coordinates in millionths of a degree.
#[derive(Debug)]
pub struct Advert {
    pub id: i32,
    /// The owner.
    pub user_id: i32,
    pub category: String,
    pub title: String,
    pub price: u64,
    pub lat: i64,
    pub lon: i64,
    pub available: bool,
    pub sold_to: Option<i32>,
    pub specs: Vec<Specification>,
}

/// A buyer's verdict on an advert, 1 to 5 stars.
#[derive(Clone, Copy, Debug, PartialEq, Eq, Structural)]
pub struct Review {
    pub advert_id: i32,
    /// Who wrote it.
    pub user_id: i32,
    pub rating: i32,
}

/// A user's bookmark of an advert.
#[derive(Clone, Copy, Debug, PartialEq, Eq, Structural)]
pub struct Favorite {
    pub user_id: i32,
    pub advert_id: i32,
}

/// An owner's reviews summed up: the sum of the stars and the number of
/// reviews. It stands for their mean, and for zero where there is none.
#[derive(Clone, Copy, Debug, PartialEq, Eq, Structural)]
pub struct Rating {
    pub total: i64,
    pub count: u64,
}

impl Rating {
    /// Numerator of the mean.
    pub open spec fn numerator(self) -> int {
        if self.count == 0 {
            0
        } else {
            self.total as int
        }
    }

    /// Denominator of the mean, at least 1.
    pub open spec fn denominator(self) -> int {
        if self.count == 0 {
            1
        } else {
            self.count as int
        }
    }

    /// The mean of `self` is below the mean of `other`.
    pub open spec fn below(self, other: Rating) -> bool {
        self.numerator() * other.denominator() < other.numerator() * self.denominator()
    }

    /// A rating that is below another is below, or a third is below,
    /// whatever the third: ratings are ranked by their means.
    pub proof fn below_cuts(self, middle: Rating, other: Rating)
        ensures
            self.below(other) ==> self.below(middle) || middle.below(other),
    {
        let (nx, dx) = (self.numerator(), self.denominator());
        let (ny, dy) = (middle.numerator(), middle.denominator());
        let (nz, dz) = (other.numerator(), other.denominator());
        if !self.below(middle) && !middle.below(other) {
            assert(nz * dx <= nx * dz) by (nonlinear_arith)
                requires
                    ny * dx <= nx * dy,
                    nz * dy <= ny * dz,
                    dx > 0,
                    dy > 0,
                    dz > 0,
            {
                assert(nz * dy * dx <= ny * dz * dx);
                assert(ny * dx * dz <= nx * dy * dz);
                assert(nz * dx * dy <= nx * dz * dy);
            }
        }
    }

    /// The rating of an owner without reviews.
    pub fn none() -> (r: Rating)
        ensures
            r == (Rating { total: 0, count: 0 }),
    {
        Rating { total: 0, count: 0 }
    }

    /// Tests [`Rating::below`].
    pub fn is_below(&self, other: &Rating) -> (r: bool)
        ensures
            r == self.below(*other),
    {
        let a: i128 = if self.count == 0 { 0 } else { self.total as i128 };
        let b: i128 = if self.count == 0 { 1 } else { self.count as i128 };
        let c: i128 = if other.count == 0 { 0 } else { other.total as i128 };
        let d: i128 = if other.count == 0 { 1 } else { other.count as i128 };
        assert(-0x8000_0000_0000_0000 <= a <= 0x7fff_ffff_ffff_ffff);
        assert(-0x8000_0000_0000_0000 <= c <= 0x7fff_ffff_ffff_ffff);
        assert(1 <= b <= 0xffff_ffff_ffff_ffff);
        assert(1 <= d <= 0xffff_ffff_ffff_ffff);
        assert(-0x7fff_ffff_ffff_ffff_ffff_ffff_ffff_ffff <= a * d
            <= 0x7fff_ffff_ffff_ffff_ffff_ffff_ffff_ffff) by (nonlinear_arith)
            requires
                -0x8000_0000_0000_0000 <= a <= 0x7fff_ffff_ffff_ffff,
                1 <= d <= 0xffff_ffff_ffff_ffff,
        ;
        assert(-0x7fff_ffff_ffff_ffff_ffff_ffff_ffff_ffff <= c * b
            <= 0x7fff_ffff_ffff_ffff_ffff_ffff_ffff_ffff) by (nonlinear_arith)
            requires
                -0x8000_0000_0000_0000 <= c <= 0x7fff_ffff_ffff_ffff,
                1 <= b <= 0xffff_ffff_ffff_ffff,
        ;
        a * d < c * b
    }
}

} // verus!
