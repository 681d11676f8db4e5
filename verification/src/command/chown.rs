//! The owner argument of `chown`: `user`, `user:group`, `:group`, or
//! `user:` for the user's login group.
use vstd::prelude::*;
use crate::text::{
    chars_of, int_error_message, int_error_to_string, parse_unsigned, parse_unsigned_spec, split_once, split_once_chars,
    string_from_chars,
};

verus! {

/// An owner argument as written: a user, a group, and whether the user's
/// login group is meant.
#[derive(Clone, Debug, PartialEq, Eq, PartialOrd, Ord, Hash)]
pub struct RawOwnership {
    pub user: Option<String>,
    pub group: Option<String>,
    pub use_login_group: bool,
}

/// The value of an owner argument.
pub open spec fn ownership_view(o: RawOwnership) -> (Option<Seq<char>>, Option<Seq<char>>, bool) {
    (match o.user {
        Some(u) => Some(u@),
        None => None,
    }, match o.group {
        Some(g) => Some(g@),
        None => None,
    }, o.use_login_group)
}

/// What an owner argument reads as: nothing and a lone colon are errors;
/// with a colon the text before it is the user and the text after it the
/// group, an empty one meaning none, and a user with an empty group means
/// the user's login group; without a colon the whole is the user.
pub open spec fn ownership_of(s: Seq<char>) -> Result<(Option<Seq<char>>, Option<Seq<char>>, bool), Seq<char>> {
    if s.len() == 0 || s == seq![':'] {
        Err("owner must not be empty"@)
    } else {
        match split_once(s, ':') {
            Some((u, g)) => Ok((
                if u.len() == 0 { None } else { Some(u) },
                if g.len() == 0 { None } else { Some(g) },
                u.len() != 0 && g.len() == 0,
            )),
            None => Ok((Some(s), None, false)),
        }
    }
}

impl RawOwnership {
    /// Reads an owner argument.
    pub fn from_str(s: &str) -> (r: Result<RawOwnership, String>)
        ensures
            r matches Ok(o) ==> ownership_of(s@) == Ok::<(Option<Seq<char>>, Option<Seq<char>>, bool), Seq<char>>(ownership_view(o)),
            r matches Err(e) ==> ownership_of(s@) == Err::<(Option<Seq<char>>, Option<Seq<char>>, bool), Seq<char>>(e@),
    {
        let cs = chars_of(s);
        if cs.len() == 0 || (cs.len() == 1 && cs[0] == ':') {
            proof {
                if cs.len() == 1 {
                    assert(s@ =~= seq![':']);
                }
            }
            return Err(String::from_str("owner must not be empty"));
        }
        assert(s@ != seq![':']) by {
            if s@ == seq![':'] {
                assert(cs@.len() == 1 && cs@[0] == ':');
            }
        }
        match split_once_chars(cs.as_slice(), ':') {
            Some((u, g)) => {
                let user = if u.len() == 0 { None } else { Some(string_from_chars(u.as_slice())) };
                let group = if g.len() == 0 { None } else { Some(string_from_chars(g.as_slice())) };
                Ok(RawOwnership { user, group, use_login_group: u.len() != 0 && g.len() == 0 })
            },
            None => Ok(RawOwnership { user: Some(string_from_chars(cs.as_slice())), group: None, use_login_group: false }),
        }
    }
}

/// How one owner is to be found: looked up in the system's user or group
/// database by id or by name, or stored as the id or name given; for a
/// group, also the primary group of the user looked up.
#[derive(Clone, Debug, PartialEq, Eq)]
pub enum OwnerQuery {
    LookupId(u64),
    LookupName(String),
    Id(u64),
    Name(String),
    PrimaryGroupOfUser,
}

/// How an owner is to be found, as values.
pub ghost enum QueryModel {
    LookupId(u64),
    LookupName(Seq<char>),
    Id(u64),
    Name(Seq<char>),
    PrimaryGroupOfUser,
}

impl View for OwnerQuery {
    type V = QueryModel;

    open spec fn view(&self) -> QueryModel {
        match self {
            OwnerQuery::LookupId(n) => QueryModel::LookupId(*n),
            OwnerQuery::LookupName(s) => QueryModel::LookupName(s@),
            OwnerQuery::Id(n) => QueryModel::Id(*n),
            OwnerQuery::Name(s) => QueryModel::Name(s@),
            OwnerQuery::PrimaryGroupOfUser => QueryModel::PrimaryGroupOfUser,
        }
    }
}

/// How the user and the group of a `chown` are to be found.
#[derive(Clone, Debug, PartialEq, Eq)]
pub struct OwnershipQuery {
    pub user: Option<OwnerQuery>,
    pub group: Option<OwnerQuery>,
}

/// An optional query as values.
pub open spec fn query_view(q: Option<OwnerQuery>) -> Option<QueryModel> {
    match q {
        Some(x) => Some(x@),
        None => None,
    }
}

/// The message when the login group is asked for without lookups.
pub open spec fn login_group_without_lookup_message() -> Seq<char> {
    "cannot use 'user:' format with --no-owner-lookup"@
}

/// How one owner written as `s` is found: with `numeric_owner` it is an
/// id (an error where it is no `u64`), else a name; looked up where
/// `lookup` says so.
pub open spec fn owner_query_of(s: Seq<char>, numeric_owner: bool, lookup: bool) -> Result<QueryModel, Seq<char>> {
    if numeric_owner {
        match parse_unsigned_spec(s, 10, u64::MAX as nat) {
            Ok(n) => Ok(if lookup { QueryModel::LookupId(n as u64) } else { QueryModel::Id(n as u64) }),
            Err(k) => Err(int_error_message(k)),
        }
    } else {
        Ok(if lookup { QueryModel::LookupName(s) } else { QueryModel::Name(s) })
    }
}

/// How the owners of an argument are found: the login group needs lookups;
/// the user as `owner_query_of` says, then the group the same way, or for
/// the login group the primary group of the user looked up.
pub open spec fn ownership_query_of(
    o: (Option<Seq<char>>, Option<Seq<char>>, bool),
    numeric_owner: bool,
    lookup: bool,
) -> Result<(Option<QueryModel>, Option<QueryModel>), Seq<char>> {
    let (user, group, login) = o;
    if login && !lookup {
        Err(login_group_without_lookup_message())
    } else {
        let u = match user {
            Some(u) => match owner_query_of(u, numeric_owner, lookup) {
                Ok(q) => Ok(Some(q)),
                Err(e) => Err(e),
            },
            None => Ok(None),
        };
        match u {
            Err(e) => Err(e),
            Ok(uq) => if login {
                Ok((uq, if uq matches Some(QueryModel::LookupId(_)) || uq matches Some(QueryModel::LookupName(_)) {
                    Some(QueryModel::PrimaryGroupOfUser)
                } else {
                    None
                }))
            } else {
                match group {
                    Some(g) => match owner_query_of(g, numeric_owner, lookup) {
                        Ok(q) => Ok((uq, Some(q))),
                        Err(e) => Err(e),
                    },
                    None => Ok((uq, None)),
                }
            },
        }
    }
}

/// An owner written as given, as the query that stores it by name.
pub open spec fn name_query(q: Option<Seq<char>>) -> Option<QueryModel> {
    match q {
        Some(n) => Some(QueryModel::Name(n)),
        None => None,
    }
}

/// How owner arguments are resolved: the login group needs lookups (an
/// error without them); without lookups and without numeric ids the names
/// are stored as given; with numeric ids, a user that is no `u64` is an
/// error; with lookups, every owner given is looked up.
pub proof fn owner_resolution(o: (Option<Seq<char>>, Option<Seq<char>>, bool), numeric_owner: bool, lookup: bool)
    ensures
        o.2 && !lookup ==> ownership_query_of(o, numeric_owner, lookup) == Err::<
            (Option<QueryModel>, Option<QueryModel>),
            Seq<char>,
        >(login_group_without_lookup_message()),
        !lookup && !numeric_owner && !o.2 ==> ownership_query_of(o, numeric_owner, lookup) == Ok::<
            (Option<QueryModel>, Option<QueryModel>),
            Seq<char>,
        >((name_query(o.0), name_query(o.1))),
        numeric_owner && !o.2 && o.0 is Some && parse_unsigned_spec(o.0->0, 10, u64::MAX as nat) is Err
            ==> ownership_query_of(o, numeric_owner, lookup) is Err,
        lookup && ownership_query_of(o, numeric_owner, lookup) is Ok ==> {
            let (u, g) = ownership_query_of(o, numeric_owner, lookup)->Ok_0;
            &&& (u matches Some(q) ==> q is LookupId || q is LookupName)
            &&& (g matches Some(q) ==> q is LookupId || q is LookupName || q is PrimaryGroupOfUser)
        },
{
}

/// With `user:` and lookups on, the group is the primary group of the user
/// whenever a user is given and found, whether by id (with numeric owners:
/// `1000:` looks up uid 1000 and then its primary group) or by name; a
/// user id that is no `u64` is an error, and with no user the group is left.
pub proof fn login_group_follows_user(o: (Option<Seq<char>>, Option<Seq<char>>, bool), numeric_owner: bool)
    requires
        o.2,
    ensures
        o.0 is Some && ownership_query_of(o, numeric_owner, true) is Ok ==> ownership_query_of(
            o,
            numeric_owner,
            true,
        )->Ok_0.1 == Some(QueryModel::PrimaryGroupOfUser),
        o.0 matches Some(u) ==> (parse_unsigned_spec(u, 10, u64::MAX as nat) matches Ok(n)
            ==> ownership_query_of(o, true, true) == Ok::<(Option<QueryModel>, Option<QueryModel>), Seq<char>>(
            (Some(QueryModel::LookupId(n as u64)), Some(QueryModel::PrimaryGroupOfUser)),
        )),
        o.0 matches Some(u) ==> (parse_unsigned_spec(u, 10, u64::MAX as nat) is Err ==> ownership_query_of(
            o,
            true,
            true,
        ) is Err),
        o.0 matches Some(u) ==> ownership_query_of(o, false, true) == Ok::<
            (Option<QueryModel>, Option<QueryModel>),
            Seq<char>,
        >((Some(QueryModel::LookupName(u)), Some(QueryModel::PrimaryGroupOfUser))),
        o.0 is None ==> ownership_query_of(o, numeric_owner, true) == Ok::<
            (Option<QueryModel>, Option<QueryModel>),
            Seq<char>,
        >((None, None)),
{
}

/// How one owner written as `s` is found, `owner_query_of` says how.
fn owner_query(s: &String, numeric_owner: bool, lookup: bool) -> (r: Result<OwnerQuery, String>)
    ensures
        match r {
            Ok(q) => owner_query_of(s@, numeric_owner, lookup) == Ok::<QueryModel, Seq<char>>(q@),
            Err(e) => owner_query_of(s@, numeric_owner, lookup) == Err::<QueryModel, Seq<char>>(e@),
        },
{
    if numeric_owner {
        let cs = chars_of(s.as_str());
        match parse_unsigned(cs.as_slice(), 10, u64::MAX) {
            Ok(n) => Ok(if lookup { OwnerQuery::LookupId(n) } else { OwnerQuery::Id(n) }),
            Err(k) => Err(int_error_to_string(k)),
        }
    } else if lookup {
        Ok(OwnerQuery::LookupName(s.clone()))
    } else {
        Ok(OwnerQuery::Name(s.clone()))
    }
}

impl RawOwnership {
    /// How the owners of the argument are to be found,
    /// `ownership_query_of` says how; the lookups themselves are the
    /// caller's.
    pub fn lookup_platform_owner(&self, numeric_owner: bool, lookup: bool) -> (r: Result<OwnershipQuery, String>)
        ensures
            match r {
                Ok(q) => ownership_query_of(ownership_view(*self), numeric_owner, lookup) == Ok::<
                    (Option<QueryModel>, Option<QueryModel>),
                    Seq<char>,
                >((query_view(q.user), query_view(q.group))),
                Err(e) => ownership_query_of(ownership_view(*self), numeric_owner, lookup) == Err::<
                    (Option<QueryModel>, Option<QueryModel>),
                    Seq<char>,
                >(e@),
            },
    {
        if self.use_login_group && !lookup {
            return Err(String::from_str("cannot use 'user:' format with --no-owner-lookup"));
        }
        let user = match &self.user {
            Some(u) => match owner_query(u, numeric_owner, lookup) {
                Ok(q) => Some(q),
                Err(e) => return Err(e),
            },
            None => None,
        };
        let group = if self.use_login_group {
            match &user {
                Some(OwnerQuery::LookupId(_)) | Some(OwnerQuery::LookupName(_)) => Some(OwnerQuery::PrimaryGroupOfUser),
                _ => None,
            }
        } else {
            match &self.group {
                Some(g) => match owner_query(g, numeric_owner, lookup) {
                    Ok(q) => Some(q),
                    Err(e) => return Err(e),
                },
                None => None,
            }
        };
        Ok(OwnershipQuery { user, group })
    }
}

/// What was found of an owner for an entry: a name to store with the id
/// left unknown, an id to store without a name, or the id and name that a
/// lookup gave, either of which may be missing.
#[derive(Clone, Debug, PartialEq, Eq)]
pub enum FoundOwner {
    Name(String),
    Id(u64),
    Looked(Option<u64>, Option<String>),
}

/// The id that stands for an unknown owner.
pub const UNKNOWN_ID: u64 = 0xffff_ffff_ffff_ffffu64;

/// The id and name an entry's owner gets: from what was found where
/// anything was (an unknown id beside a bare name, an empty name beside a
/// bare id, the unknown id and an empty name for what a lookup left
/// missing), else the entry's own id and name, an empty name where it has
/// none.
pub open spec fn owner_fields_of(
    found: Option<FoundOwner>,
    current_id: Option<u64>,
    current_name: Option<Seq<char>>,
) -> (Option<u64>, Seq<char>) {
    match found {
        Some(FoundOwner::Name(n)) => (Some(UNKNOWN_ID), n@),
        Some(FoundOwner::Id(i)) => (Some(i), Seq::empty()),
        Some(FoundOwner::Looked(i, n)) => (
            Some(match i { Some(i) => i, None => UNKNOWN_ID }),
            match n { Some(n) => n@, None => Seq::empty() },
        ),
        None => (current_id, match current_name { Some(n) => n, None => Seq::empty() }),
    }
}

/// The id and name an entry's owner gets, `owner_fields_of` says which.
pub fn owner_fields(found: Option<FoundOwner>, current_id: Option<u64>, current_name: Option<String>) -> (r: (
    Option<u64>,
    String,
))
    ensures
        (r.0, r.1@) == owner_fields_of(
            found,
            current_id,
            match current_name {
                Some(n) => Some(n@),
                None => None,
            },
        ),
{
    match found {
        Some(FoundOwner::Name(n)) => (Some(UNKNOWN_ID), n),
        Some(FoundOwner::Id(i)) => (Some(i), String::new()),
        Some(FoundOwner::Looked(i, n)) => (
            Some(
                match i {
                    Some(i) => i,
                    None => UNKNOWN_ID,
                },
            ),
            match n {
                Some(n) => n,
                None => String::new(),
            },
        ),
        None => (
            current_id,
            match current_name {
                Some(n) => n,
                None => String::new(),
            },
        ),
    }
}

} // verus!
