//! Access-control entry arguments of the `acl set` command
//! (`[d[efault]:] [u[ser]:]name [:allow|:deny] [:perms]`), and how they set,
//! modify and remove the entries of an archive entry's access-control list.
use vstd::prelude::*;
use crate::chunk::acl::{parse_ace, Ace, AceModel, Identifier, OwnerModel, OwnerType, ParseAceError, ParseAceErrorModel};
use crate::chunk::table::{member_bits, parse_member, Table};
use crate::chunk::{AcePlatform, Flag, Permission, PlatformModel};
use crate::command::shared::re::{groups_view, regex_captures, regex_search};
use crate::text::{
    chars_between, chars_eq, chars_of, contains_char, push_all, push_piece, push_str, split_chars,
    split_on, starts_with, starts_with_at, string_from_chars,
};

verus! {

/// The length of the text before the first colon (all of it if none).
pub open spec fn until_colon(s: Seq<char>) -> nat
    decreases s.len(),
{
    if s.len() == 0 || s[0] == ':' { 0 } else { 1 + until_colon(s.skip(1)) }
}

/// How many characters the `default` marker takes: `default:` or `d:`.
pub open spec fn default_len(s: Seq<char>) -> nat {
    if starts_with(s, "default:"@) { 8 } else if starts_with(s, "d:"@) { 2 } else { 0 }
}

/// The length of a keyword written in full (`full`) or by its first
/// letter, then an optional colon.
pub open spec fn keyword_colon_len(s: Seq<char>, full: Seq<char>) -> nat {
    let k: nat = if starts_with(s, full) { full.len() } else { 1 };
    if k < s.len() && s[k as int] == ':' { k + 1 } else { k }
}

/// Reads the owner at the start of `s`: `o[ther][:]`, `m[ask][:]`,
/// `g[roup]:name` (no name: the owning group), else `[u[ser]:]name` (no
/// name: the owner). Yields the owner and the characters it takes.
pub open spec fn owner_part(s: Seq<char>) -> (OwnerModel, nat) {
    let gk: nat = if starts_with(s, "group"@) { 5 } else { 1 };
    if s.len() > 0 && s[0] == 'o' {
        (OwnerModel::Other, keyword_colon_len(s, "other"@))
    } else if s.len() > 0 && s[0] == 'm' {
        (OwnerModel::Mask, keyword_colon_len(s, "mask"@))
    } else if s.len() > 0 && s[0] == 'g' && gk < s.len() && s[gk as int] == ':' {
        let rest = s.skip(gk + 1 as int);
        let id = rest.take(until_colon(rest) as int);
        (if id.len() == 0 { OwnerModel::OwnerGroup } else { OwnerModel::Group(id) }, gk + 1 + id.len())
    } else {
        let uk: nat = if starts_with(s, "user:"@) { 5 } else if starts_with(s, "u:"@) { 2 } else { 0 };
        let rest = s.skip(uk as int);
        let id = rest.take(until_colon(rest) as int);
        (if id.len() == 0 { OwnerModel::Owner } else { OwnerModel::User(id) }, uk + id.len())
    }
}

/// Reads `:allow` or `:deny` at position `p`, if there.
pub open spec fn allow_part(s: Seq<char>, p: nat) -> (Option<bool>, nat) {
    if p < s.len() && s[p as int] == ':' && starts_with(s.skip(p + 1 as int), "allow"@) {
        (Some(true), p + 6)
    } else if p < s.len() && s[p as int] == ':' && starts_with(s.skip(p + 1 as int), "deny"@) {
        (Some(false), p + 5)
    } else {
        (None, p)
    }
}

/// One reading of the owner at the start of `s`, where it applies:
/// `o[ther][:]` (0), `m[ask][:]` (1), `g[roup]:name` (2) or `[u[ser]:]name`
/// (3, which always applies). Yields the owner and the characters it takes.
pub open spec fn owner_reading(s: Seq<char>, kind: nat) -> Option<(OwnerModel, nat)> {
    let gk: nat = if starts_with(s, "group"@) { 5 } else { 1 };
    if kind == 0 {
        if s.len() > 0 && s[0] == 'o' { Some((OwnerModel::Other, keyword_colon_len(s, "other"@))) } else { None }
    } else if kind == 1 {
        if s.len() > 0 && s[0] == 'm' { Some((OwnerModel::Mask, keyword_colon_len(s, "mask"@))) } else { None }
    } else if kind == 2 {
        if s.len() > 0 && s[0] == 'g' && gk < s.len() && s[gk as int] == ':' {
            let rest = s.skip(gk + 1 as int);
            let id = rest.take(until_colon(rest) as int);
            Some((if id.len() == 0 { OwnerModel::OwnerGroup } else { OwnerModel::Group(id) }, gk + 1 + id.len()))
        } else {
            None
        }
    } else {
        let uk: nat = if starts_with(s, "user:"@) { 5 } else if starts_with(s, "u:"@) { 2 } else { 0 };
        let rest = s.skip(uk as int);
        let id = rest.take(until_colon(rest) as int);
        Some((if id.len() == 0 { OwnerModel::Owner } else { OwnerModel::User(id) }, uk + id.len()))
    }
}

/// Whether the rest of `s` after an owner of `k` characters reads: an
/// optional `:allow` or `:deny`, then the end or `:` and the permissions.
pub open spec fn reads_whole(s: Seq<char>, k: nat) -> bool {
    let p = allow_part(s, k).1;
    p == s.len() || (p < s.len() && s[p as int] == ':')
}

/// Whether reading `kind` of the owner applies and lets the whole text be
/// read.
pub open spec fn reading_fits(s: Seq<char>, kind: nat) -> bool {
    owner_reading(s, kind) matches Some(r) && reads_whole(s, r.1)
}

/// The owner that an entry argument is read with: the first of the
/// readings `o[ther][:]`, `m[ask][:]`, `g[roup]:name`, `[u[ser]:]name` that
/// lets the whole text be read (so `oscar` is the user `oscar`); where none
/// does, the first that applies, whose leftover text is then reported.
pub open spec fn chosen_owner(s: Seq<char>) -> (OwnerModel, nat) {
    if reading_fits(s, 0) {
        owner_reading(s, 0)->0
    } else if reading_fits(s, 1) {
        owner_reading(s, 1)->0
    } else if reading_fits(s, 2) {
        owner_reading(s, 2)->0
    } else if reading_fits(s, 3) {
        owner_reading(s, 3)->0
    } else {
        owner_part(s)
    }
}

/// The pattern that a short permission item such as `rw-` is matched
/// against.
pub open spec fn rwx_pattern() -> Seq<char> {
    "^([\\-r]?)([\\-w]?)([\\-x]?)$"@
}

/// The groups after the whole match of `pattern` in `item`, each absent or
/// the text it took; `None` where it does not match.
pub open spec fn regex_groups(pattern: Seq<char>, item: Seq<char>) -> Option<Seq<Option<Seq<char>>>> {
    match regex_search(pattern, item) {
        Some((_pre, g)) => Some(g.drop_first()),
        None => None,
    }
}

/// The texts that groups took, without the ones that took `-`.
pub open spec fn kept_groups(g: Seq<Option<Seq<char>>>) -> Seq<Seq<char>>
    decreases g.len(),
{
    if g.len() == 0 {
        Seq::empty()
    } else {
        let init = kept_groups(g.drop_last());
        match g.last() {
            Some(t) => if t == seq!['-'] { init } else { init.push(t) },
            None => init,
        }
    }
}

/// The permission names one item stands for: the bits of a matching
/// `rwx`-style item, else the item itself.
pub open spec fn item_names(item: Seq<char>) -> Seq<Seq<char>> {
    match regex_groups(rwx_pattern(), item) {
        Some(g) => kept_groups(g),
        None => seq![item],
    }
}

/// The names of all items, in order.
pub open spec fn all_item_names(items: Seq<Seq<char>>) -> Seq<Seq<char>>
    decreases items.len(),
{
    if items.len() == 0 {
        Seq::empty()
    } else {
        all_item_names(items.drop_last()) + item_names(items.last())
    }
}

/// The permission names of a permission field: nothing for an empty
/// field, else its items, separated by commas where there is one and by
/// `|` otherwise.
pub open spec fn permission_names(c: Seq<char>) -> Seq<Seq<char>> {
    if c.len() == 0 {
        Seq::empty()
    } else {
        all_item_names(split_on(c, if c.contains(',') { ',' } else { '|' }))
    }
}

/// The value of an entry argument.
pub ghost struct AclEntriesModel {
    pub default: bool,
    pub allow: Option<bool>,
    pub owner: OwnerModel,
    pub permissions: Option<Seq<Seq<char>>>,
}

/// What an entry argument reads as: the default marker, the owner (as
/// `chosen_owner` picks it), `:allow` or `:deny`, then `:` and the
/// permissions; text left after that is an error.
pub open spec fn parse_acl_entries(s: Seq<char>) -> Result<AclEntriesModel, Seq<char>> {
    let d = default_len(s);
    let t = s.skip(d as int);
    let (owner, k) = chosen_owner(t);
    let (allow, p) = allow_part(t, k);
    let (permissions, q): (Option<Seq<Seq<char>>>, nat) = if p < t.len() && t[p as int] == ':' {
        (Some(permission_names(t.skip(p + 1 as int))), t.len())
    } else {
        (None, p)
    };
    if q == t.len() {
        Ok(AclEntriesModel { default: d > 0, allow, owner, permissions })
    } else {
        Err("unexpected value: "@ + t.skip(q as int))
    }
}

/// An access-control entry argument.
#[derive(Clone, Debug, PartialEq, Eq, Hash)]
pub struct AclEntries {
    pub default: bool,
    pub allow: Option<bool>,
    pub owner: OwnerType,
    pub permissions: Option<Vec<String>>,
}

/// The views of a list of strings.
pub open spec fn strings_view(v: Seq<String>) -> Seq<Seq<char>> {
    Seq::new(v.len(), |i: int| v[i]@)
}

impl View for AclEntries {
    type V = AclEntriesModel;

    open spec fn view(&self) -> AclEntriesModel {
        AclEntriesModel {
            default: self.default,
            allow: self.allow,
            owner: self.owner@,
            permissions: match self.permissions {
                Some(v) => Some(strings_view(v@)),
                None => None,
            },
        }
    }
}

/// The position of the first colon at or after `i` (the end if none).
fn colon_from(s: &[char], i: usize) -> (r: usize)
    requires
        i <= s.len(),
    ensures
        r == i + until_colon(s@.skip(i as int)),
        r <= s.len(),
    decreases s.len() - i,
{
    if i == s.len() || s[i] == ':' {
        0 + i
    } else {
        assert(s@.skip(i as int).skip(1) =~= s@.skip(i + 1));
        colon_from(s, i + 1)
    }
}

/// The words that entry arguments are written with.
proof fn lemma_acl_words()
    ensures
        "default:"@.len() == 8,
        "d:"@.len() == 2,
        "other"@.len() == 5,
        "mask"@.len() == 4,
        "group"@.len() == 5,
        "user:"@.len() == 5,
        "u:"@.len() == 2,
        "allow"@.len() == 5,
        "deny"@.len() == 4,
{
    reveal_strlit("default:");
    reveal_strlit("d:");
    reveal_strlit("other");
    reveal_strlit("mask");
    reveal_strlit("group");
    reveal_strlit("user:");
    reveal_strlit("u:");
    reveal_strlit("allow");
    reveal_strlit("deny");
}

/// Reads the owner at position `i`; yields it and the position after it.
fn owner_at(s: &[char], i: usize) -> (r: (OwnerType, usize))
    requires
        i <= s.len(),
    ensures
        r.0@ == owner_part(s@.skip(i as int)).0,
        r.1 == i + owner_part(s@.skip(i as int)).1,
        r.1 <= s.len(),
{
    proof { lemma_acl_words(); }
    let ghost t = s@.skip(i as int);
    let n = s.len();
    if i < n && s[i] == 'o' {
        let mut k: usize = if starts_with_at(s, i, "other") { 5 } else { 1 };
        if i + k < n && s[i + k] == ':' {
            k = k + 1;
        }
        (OwnerType::Other, i + k)
    } else if i < n && s[i] == 'm' {
        let mut k: usize = if starts_with_at(s, i, "mask") { 4 } else { 1 };
        if i + k < n && s[i + k] == ':' {
            k = k + 1;
        }
        (OwnerType::Mask, i + k)
    } else {
        let gk: usize = if starts_with_at(s, i, "group") { 5 } else { 1 };
        if i < n && s[i] == 'g' && i + gk < n && s[i + gk] == ':' {
            let start = i + gk + 1;
            let end = colon_from(s, start);
            assert(t.skip(gk + 1) =~= s@.skip(start as int));
            assert(t.skip(gk + 1).take(until_colon(t.skip(gk + 1)) as int) =~= s@.subrange(start as int, end as int));
            if end == start {
                (OwnerType::OwnerGroup, end)
            } else {
                let id = chars_between(s, start, end);
                (OwnerType::Group(Identifier(string_from_chars(id.as_slice()))), end)
            }
        } else {
            let uk: usize = if starts_with_at(s, i, "user:") {
                5
            } else if starts_with_at(s, i, "u:") {
                2
            } else {
                0
            };
            let start = i + uk;
            let end = colon_from(s, start);
            assert(t.skip(uk as int) =~= s@.skip(start as int));
            assert(t.skip(uk as int).take(until_colon(t.skip(uk as int)) as int) =~= s@.subrange(start as int, end as int));
            if end == start {
                (OwnerType::Owner, end)
            } else {
                let id = chars_between(s, start, end);
                (OwnerType::User(Identifier(string_from_chars(id.as_slice()))), end)
            }
        }
    }
}

/// Reading `kind` of the owner at the start of `t`, where it applies.
fn owner_reading_at(t: &[char], kind: u8) -> (r: Option<(OwnerType, usize)>)
    requires
        kind <= 3,
    ensures
        r is Some <==> owner_reading(t@, kind as nat) is Some,
        r matches Some(x) ==> owner_reading(t@, kind as nat) == Some((x.0@, x.1 as nat)) && x.1 <= t.len(),
{
    proof { lemma_acl_words(); }
    assert(t@.skip(0) =~= t@);
    let n = t.len();
    if kind == 0 {
        if n > 0 && t[0] == 'o' {
            let (o, k) = owner_at(t, 0);
            Some((o, k))
        } else {
            None
        }
    } else if kind == 1 {
        if n > 0 && t[0] == 'm' {
            let (o, k) = owner_at(t, 0);
            Some((o, k))
        } else {
            None
        }
    } else if kind == 2 {
        let gk: usize = if starts_with_at(t, 0, "group") { 5 } else { 1 };
        if n > 0 && t[0] == 'g' && gk < n && t[gk] == ':' {
            let (o, k) = owner_at(t, 0);
            Some((o, k))
        } else {
            None
        }
    } else {
        let uk: usize = if starts_with_at(t, 0, "user:") {
            5
        } else if starts_with_at(t, 0, "u:") {
            2
        } else {
            0
        };
        let end = colon_from(t, uk);
        assert(t@.skip(uk as int).take(until_colon(t@.skip(uk as int)) as int) =~= t@.subrange(uk as int, end as int));
        if end == uk {
            Some((OwnerType::Owner, end))
        } else {
            let id = chars_between(t, uk, end);
            Some((OwnerType::User(Identifier(string_from_chars(id.as_slice()))), end))
        }
    }
}

/// Whether the text after an owner of `k` characters reads whole.
fn reads_whole_at(t: &[char], k: usize) -> (r: bool)
    requires
        k <= t.len(),
    ensures
        r == reads_whole(t@, k as nat),
{
    let (_, p) = allow_at(t, k);
    p == t.len() || t[p] == ':'
}

/// The owner an entry argument is read with, `chosen_owner` says which.
fn chosen_owner_at(t: &[char]) -> (r: (OwnerType, usize))
    ensures
        r.0@ == chosen_owner(t@).0,
        r.1 == chosen_owner(t@).1,
        r.1 <= t.len(),
{
    let mut kind: u8 = 0;
    while kind < 4
        invariant
            kind <= 4,
            forall|j: nat| j < kind ==> !reading_fits(t@, j),
        decreases 4 - kind,
    {
        match owner_reading_at(t, kind) {
            Some((o, k)) => {
                if reads_whole_at(t, k) {
                    return (o, k);
                }
            },
            None => {},
        }
        kind = kind + 1;
    }
    assert(t@.skip(0) =~= t@);
    owner_at(t, 0)
}

/// The names kept from regex groups: the texts they took, without `-`.
pub fn kept_group_names(groups: &Vec<Option<String>>) -> (r: Vec<String>)
    ensures
        strings_view(r@) == kept_groups(Seq::new(
            groups@.len(),
            |i: int| match groups@[i] {
                Some(t) => Some(t@),
                None => None,
            },
        )),
{
    let ghost gv = Seq::new(
        groups@.len(),
        |i: int| match groups@[i] {
            Some(t) => Some(t@),
            None => None,
        },
    );
    let mut out: Vec<String> = Vec::new();
    let mut i: usize = 0;
    while i < groups.len()
        invariant
            i <= groups.len(),
            gv == Seq::new(
                groups@.len(),
                |k: int| match groups@[k] {
                    Some(t) => Some(t@),
                    None => None,
                },
            ),
            strings_view(out@) == kept_groups(gv.take(i as int)),
        decreases groups.len() - i,
    {
        assert(gv.take(i + 1).drop_last() =~= gv.take(i as int));
        let ghost before = out@;
        match &groups[i] {
            Some(t) => {
                let tc = chars_of(t.as_str());
                if tc.len() == 1 && tc[0] == '-' {
                    assert(t@ =~= seq!['-']);
                } else {
                    assert(t@ != seq!['-']);
                    out.push(t.clone());
                    assert(strings_view(out@) =~= strings_view(before).push(t@));
                }
            },
            None => {},
        }
        i = i + 1;
    }
    assert(gv.take(groups.len() as int) =~= gv);
    out
}

/// The permission names that one item stands for, given what the pattern
/// gave for it: the kept groups of a match, else the item itself.
pub fn names_from_groups(item: &[char], groups: Option<Vec<Option<String>>>) -> (r: Vec<String>)
    ensures
        groups is None ==> strings_view(r@) == seq![item@],
        groups matches Some(g) ==> strings_view(r@) == kept_groups(Seq::new(
            g@.len(),
            |i: int| match g@[i] {
                Some(t) => Some(t@),
                None => None,
            },
        )),
{
    match groups {
        Some(g) => kept_group_names(&g),
        None => {
            let v = vec![string_from_chars(item)];
            assert(strings_view(v@) =~= seq![item@]);
            v
        },
    }
}

/// The permission names that one item stands for.
fn item_names_exec(item: &[char]) -> (r: Vec<String>)
    ensures
        strings_view(r@) == item_names(item@),
{
    let it = string_from_chars(item);
    let groups = match regex_captures("^([\\-r]?)([\\-w]?)([\\-x]?)$", it.as_str()) {
        Some((_pre, g)) => {
            let ghost before = groups_view(g@);
            let mut g = g;
            g.remove(0);
            assert(groups_view(g@) =~= before.drop_first());
            Some(g)
        },
        None => None,
    };
    names_from_groups(item, groups)
}

/// The permission names of a permission field.
pub fn permission_names_exec(c: &[char]) -> (r: Vec<String>)
    ensures
        strings_view(r@) == permission_names(c@),
{
    let mut out: Vec<String> = Vec::new();
    if c.len() == 0 {
        assert(strings_view(out@) =~= Seq::<Seq<char>>::empty());
        return out;
    }
    let sep = if contains_char(c, ',') { ',' } else { '|' };
    let items = split_chars(c, sep);
    let mut i: usize = 0;
    while i < items.len()
        invariant
            i <= items.len(),
            strings_view(out@) == all_item_names(items.deep_view().take(i as int)),
        decreases items.len() - i,
    {
        assert(items.deep_view().take(i + 1).drop_last() =~= items.deep_view().take(i as int));
        assert(items.deep_view()[i as int] == items@[i as int]@);
        let ghost before = out@;
        let mut names = item_names_exec(items[i].as_slice());
        let ghost nv = names@;
        out.append(&mut names);
        assert(strings_view(out@) =~= strings_view(before) + strings_view(nv));
        i = i + 1;
    }
    assert(items.deep_view().take(items.len() as int) =~= items.deep_view());
    out
}

/// Reads `:allow` or `:deny` at position `k`.
fn allow_at(t: &[char], k: usize) -> (r: (Option<bool>, usize))
    requires
        k <= t.len(),
    ensures
        r.0 == allow_part(t@, k as nat).0,
        r.1 == allow_part(t@, k as nat).1,
        r.1 <= t.len(),
{
    proof { lemma_acl_words(); }
    let n = t.len();
    if k < n && t[k] == ':' && starts_with_at(t, k + 1, "allow") {
        (Some(true), k + 6)
    } else if k < n && t[k] == ':' && starts_with_at(t, k + 1, "deny") {
        (Some(false), k + 5)
    } else {
        (None, k)
    }
}

impl AclEntries {
    /// Reads an entry argument:
    /// `[d[efault]:] [u[ser]:]uid [:(allow|deny)] [:perms]`,
    /// `[d[efault]:] g[roup]:gid [:(allow|deny)] [:perms]`,
    /// `[d[efault]:] m[ask][:] [:(allow|deny)] [:perms]` or
    /// `[d[efault]:] o[ther][:] [:(allow|deny)] [:perms]`; the owner is
    /// read the first of these ways that lets the whole text be read, so
    /// `oscar` is a user.
    pub fn from_str(s: &str) -> (r: Result<AclEntries, String>)
        ensures
            r matches Ok(e) ==> parse_acl_entries(s@) == Ok::<AclEntriesModel, Seq<char>>(e@),
            r matches Err(m) ==> parse_acl_entries(s@) == Err::<AclEntriesModel, Seq<char>>(m@),
    {
        proof { lemma_acl_words(); }
        let cs = chars_of(s);
        assert(cs@.skip(0) =~= s@);
        let d: usize = if starts_with_at(cs.as_slice(), 0, "default:") {
            8
        } else if starts_with_at(cs.as_slice(), 0, "d:") {
            2
        } else {
            0
        };
        let tv = chars_between(cs.as_slice(), d, cs.len());
        let t = tv.as_slice();
        assert(t@ =~= s@.skip(d as int));
        let (owner, k) = chosen_owner_at(t);
        let (allow, p) = allow_at(t, k);
        let n = t.len();
        let (permissions, q): (Option<Vec<String>>, usize) = if p < n && t[p] == ':' {
            let rest = chars_between(t, p + 1, n);
            assert(rest@ =~= t@.skip(p + 1 as int));
            (Some(permission_names_exec(rest.as_slice())), n)
        } else {
            (None, p)
        };
        if q == n {
            Ok(AclEntries { default: d > 0, allow, owner, permissions })
        } else {
            let mut out: Vec<char> = Vec::new();
            push_str(&mut out, "unexpected value: ");
            let rest = chars_between(t, q, n);
            assert(rest@ =~= t@.skip(q as int));
            push_all(&mut out, rest.as_slice());
            Err(string_from_chars(out.as_slice()))
        }
    }
}

/// Whether an entry argument picks an access-control entry: the same
/// default marker, the same owner, and the same allow or deny where the
/// argument gives one.
pub open spec fn entry_matches(e: AclEntriesModel, a: AceModel) -> bool {
    &&& e.default == (a.flags & 1 != 0)
    &&& e.owner == a.owner_type
    &&& (e.allow matches Some(x) ==> x == a.allow)
}

/// The access-control entry an argument stands for on `platform`: the
/// default flag if marked, allow unless it says deny, and the permissions
/// it names.
pub open spec fn entry_ace(e: AclEntriesModel, platform: PlatformModel) -> AceModel {
    AceModel {
        platform,
        flags: if e.default { 1 } else { 0 },
        owner_type: e.owner,
        allow: match e.allow {
            Some(x) => x,
            None => true,
        },
        permission: match e.permissions {
            Some(p) => member_bits(p, Table::Permission),
            None => 0,
        },
    }
}

/// Whether two owners are the same.
pub fn owner_eq(a: &OwnerType, b: &OwnerType) -> (r: bool)
    ensures
        r == (a@ == b@),
{
    match (a, b) {
        (OwnerType::Owner, OwnerType::Owner) => true,
        (OwnerType::OwnerGroup, OwnerType::OwnerGroup) => true,
        (OwnerType::Mask, OwnerType::Mask) => true,
        (OwnerType::Other, OwnerType::Other) => true,
        (OwnerType::User(x), OwnerType::User(y)) => {
            let xv = chars_of(x.0.as_str());
            let yv = chars_of(y.0.as_str());
            chars_eq(xv.as_slice(), yv.as_slice())
        },
        (OwnerType::Group(x), OwnerType::Group(y)) => {
            let xv = chars_of(x.0.as_str());
            let yv = chars_of(y.0.as_str());
            chars_eq(xv.as_slice(), yv.as_slice())
        },
        _ => false,
    }
}

/// A copy of an owner.
pub fn owner_copy(o: &OwnerType) -> (r: OwnerType)
    ensures
        r@ == o@,
{
    match o {
        OwnerType::Owner => OwnerType::Owner,
        OwnerType::User(x) => OwnerType::User(Identifier(x.0.clone())),
        OwnerType::OwnerGroup => OwnerType::OwnerGroup,
        OwnerType::Group(x) => OwnerType::Group(Identifier(x.0.clone())),
        OwnerType::Mask => OwnerType::Mask,
        OwnerType::Other => OwnerType::Other,
    }
}

/// Whether two platforms are the same.
pub fn platform_eq(a: &AcePlatform, b: &AcePlatform) -> (r: bool)
    ensures
        r == (a@ == b@),
{
    match (a, b) {
        (AcePlatform::General, AcePlatform::General) => true,
        (AcePlatform::Windows, AcePlatform::Windows) => true,
        (AcePlatform::MacOs, AcePlatform::MacOs) => true,
        (AcePlatform::Linux, AcePlatform::Linux) => true,
        (AcePlatform::FreeBSD, AcePlatform::FreeBSD) => true,
        (AcePlatform::Unknown(x), AcePlatform::Unknown(y)) => {
            let xv = chars_of(x.as_str());
            let yv = chars_of(y.as_str());
            chars_eq(xv.as_slice(), yv.as_slice())
        },
        _ => false,
    }
}

/// A copy of a platform.
pub fn platform_copy(p: &AcePlatform) -> (r: AcePlatform)
    ensures
        r@ == p@,
{
    match p {
        AcePlatform::General => AcePlatform::General,
        AcePlatform::Windows => AcePlatform::Windows,
        AcePlatform::MacOs => AcePlatform::MacOs,
        AcePlatform::Linux => AcePlatform::Linux,
        AcePlatform::FreeBSD => AcePlatform::FreeBSD,
        AcePlatform::Unknown(s) => AcePlatform::Unknown(s.clone()),
    }
}

/// The characters of each string.
fn strings_chars(v: &Vec<String>) -> (r: Vec<Vec<char>>)
    ensures
        r.deep_view() == strings_view(v@),
{
    let mut out: Vec<Vec<char>> = Vec::new();
    let mut i: usize = 0;
    while i < v.len()
        invariant
            i <= v.len(),
            out.deep_view() =~= strings_view(v@).take(i as int),
        decreases v.len() - i,
    {
        push_piece(&mut out, chars_of(v[i].as_str()));
        i = i + 1;
    }
    out
}

impl AclEntries {
    /// Whether this argument picks `ace`.
    pub fn is_match(&self, ace: &Ace) -> (r: bool)
        ensures
            r == entry_matches(self@, ace@),
    {
        let fl = ace.flags.bits;
        assert((fl & 1u8 == 1u8) == (fl & 1u8 != 0u8)) by (bit_vector);
        if self.default != ace.flags.contains(Flag::default_flag()) {
            return false;
        }
        if !owner_eq(&self.owner, &ace.owner_type) {
            return false;
        }
        if let Some(allow) = self.allow {
            if allow != ace.allow {
                return false;
            }
        }
        true
    }

    /// The access-control entry this argument stands for on `platform`.
    pub fn to_ace(&self, platform: &AcePlatform) -> (r: Ace)
        ensures
            r@ == entry_ace(self@, platform@),
    {
        let permission = match &self.permissions {
            Some(names) => {
                let items = strings_chars(names);
                Permission::from_bits_retain(parse_member(Table::Permission, &items))
            },
            None => Permission::empty(),
        };
        Ace {
            platform: platform_copy(platform),
            flags: if self.default { Flag::default_flag() } else { Flag::empty() },
            owner_type: owner_copy(&self.owner),
            allow: match self.allow {
                Some(x) => x,
                None => true,
            },
            permission,
        }
    }
}

/// Access-control lists by platform, in the order the platforms came.
#[derive(Clone, Debug, PartialEq, Eq)]
pub struct Acls {
    pub entries: Vec<(AcePlatform, Vec<Ace>)>,
}

/// The values of a list of entries.
pub open spec fn aces_view(v: Seq<Ace>) -> Seq<AceModel> {
    Seq::new(v.len(), |i: int| v[i]@)
}

/// The values of lists by platform.
pub open spec fn acls_view(v: Seq<(AcePlatform, Vec<Ace>)>) -> Seq<(PlatformModel, Seq<AceModel>)> {
    Seq::new(v.len(), |i: int| (v[i].0@, aces_view(v[i].1@)))
}

impl View for Acls {
    type V = Seq<(PlatformModel, Seq<AceModel>)>;

    open spec fn view(&self) -> Seq<(PlatformModel, Seq<AceModel>)> {
        acls_view(self.entries@)
    }
}

/// The position of the first list of platform `p`.
pub open spec fn platform_index(l: Seq<(PlatformModel, Seq<AceModel>)>, p: PlatformModel) -> Option<int>
    decreases l.len(),
{
    if l.len() == 0 {
        None
    } else {
        match platform_index(l.drop_last(), p) {
            Some(i) => Some(i),
            None => if l.last().0 == p { Some(l.len() - 1) } else { None },
        }
    }
}

/// The list of platform `p`, empty if there is none.
pub open spec fn acl_of(l: Seq<(PlatformModel, Seq<AceModel>)>, p: PlatformModel) -> Seq<AceModel> {
    match platform_index(l, p) {
        Some(i) => l[i].1,
        None => Seq::empty(),
    }
}

/// The lists with platform `p`'s list replaced, or added at the end.
pub open spec fn with_acl(l: Seq<(PlatformModel, Seq<AceModel>)>, p: PlatformModel, aces: Seq<AceModel>) -> Seq<(PlatformModel, Seq<AceModel>)> {
    match platform_index(l, p) {
        Some(i) => l.update(i, (p, aces)),
        None => l.push((p, aces)),
    }
}

/// The position of the first entry that an argument picks.
pub open spec fn first_matching(l: Seq<AceModel>, e: AclEntriesModel) -> Option<int>
    decreases l.len(),
{
    if l.len() == 0 {
        None
    } else {
        match first_matching(l.drop_last(), e) {
            Some(i) => Some(i),
            None => if entry_matches(e, l.last()) { Some(l.len() - 1) } else { None },
        }
    }
}

/// The entries that an argument does not pick, in order.
pub open spec fn unmatched(l: Seq<AceModel>, e: AclEntriesModel) -> Seq<AceModel>
    decreases l.len(),
{
    if l.len() == 0 {
        Seq::empty()
    } else if entry_matches(e, l.last()) {
        unmatched(l.drop_last(), e)
    } else {
        unmatched(l.drop_last(), e).push(l.last())
    }
}

/// One platform's list after `set` (replace the list by the entry),
/// `modify` (take the entry's permissions into the first entry it picks,
/// or add the entry) and `remove` (drop every entry it picks), in turn.
pub open spec fn transformed_list(
    list: Seq<AceModel>,
    platform: PlatformModel,
    set: Option<AclEntriesModel>,
    modify: Option<AclEntriesModel>,
    remove: Option<AclEntriesModel>,
) -> Seq<AceModel> {
    let l1 = match set {
        Some(e) => seq![entry_ace(e, platform)],
        None => list,
    };
    let l2 = match modify {
        Some(e) => match first_matching(l1, e) {
            Some(i) => l1.update(i, AceModel { permission: entry_ace(e, platform).permission, ..l1[i] }),
            None => l1.push(entry_ace(e, platform)),
        },
        None => l1,
    };
    match remove {
        Some(e) => unmatched(l2, e),
        None => l2,
    }
}

/// The lists after `set`, `modify` and `remove` on platform `platform`'s
/// list, which is added if missing.
pub open spec fn transformed_acls(
    l: Seq<(PlatformModel, Seq<AceModel>)>,
    platform: PlatformModel,
    set: Option<AclEntriesModel>,
    modify: Option<AclEntriesModel>,
    remove: Option<AclEntriesModel>,
) -> Seq<(PlatformModel, Seq<AceModel>)> {
    with_acl(l, platform, transformed_list(acl_of(l, platform), platform, set, modify, remove))
}

/// The first list of a platform is where the platform first appears.
proof fn lemma_platform_index(l: Seq<(PlatformModel, Seq<AceModel>)>, p: PlatformModel)
    ensures
        platform_index(l, p) matches Some(i) ==> 0 <= i < l.len() && l[i].0 == p && forall|j: int|
            0 <= j < i ==> #[trigger] l[j].0 != p,
        platform_index(l, p) is None ==> forall|j: int| 0 <= j < l.len() ==> #[trigger] l[j].0 != p,
    decreases l.len(),
{
    if l.len() > 0 {
        let d = l.drop_last();
        lemma_platform_index(d, p);
        if platform_index(d, p) is None {
            assert forall|j: int| 0 <= j < l.len() - 1 implies #[trigger] l[j].0 != p by {
                assert(d[j] == l[j]);
            }
        } else {
            let i = platform_index(d, p)->0;
            assert(d[i] == l[i]);
            assert forall|j: int| 0 <= j < i implies #[trigger] l[j].0 != p by {
                assert(d[j] == l[j]);
            }
        }
    }
}

/// A position where a platform first appears is its first list.
proof fn lemma_platform_index_at(l: Seq<(PlatformModel, Seq<AceModel>)>, p: PlatformModel, i: int)
    requires
        0 <= i < l.len(),
        l[i].0 == p,
        forall|j: int| 0 <= j < i ==> #[trigger] l[j].0 != p,
    ensures
        platform_index(l, p) == Some(i),
{
    lemma_platform_index(l, p);
    if let Some(k) = platform_index(l, p) {
        if k < i {
            assert(l[k].0 != p);
        } else if i < k {
            assert(l[i].0 != p);
        }
    } else {
        assert(l[i].0 != p);
    }
}

/// No entry that an argument picks is left after removing what it picks.
proof fn lemma_unmatched(l: Seq<AceModel>, e: AclEntriesModel)
    ensures
        forall|k: int| 0 <= k < unmatched(l, e).len() ==> !entry_matches(e, #[trigger] unmatched(l, e)[k]),
    decreases l.len(),
{
    if l.len() > 0 {
        lemma_unmatched(l.drop_last(), e);
        let u = unmatched(l.drop_last(), e);
        if !entry_matches(e, l.last()) {
            assert forall|k: int| 0 <= k < u.push(l.last()).len() implies !entry_matches(e, #[trigger] u.push(l.last())[k]) by {
                if k < u.len() {
                    assert(u.push(l.last())[k] == u[k]);
                }
            }
        }
    }
}

/// Changing the list of platform `p` leaves the lists of every other
/// platform, and gives `p` the list given.
proof fn lemma_with_acl(l: Seq<(PlatformModel, Seq<AceModel>)>, p: PlatformModel, aces: Seq<AceModel>, q: PlatformModel)
    ensures
        platform_index(with_acl(l, p, aces), p) is Some,
        acl_of(with_acl(l, p, aces), p) == aces,
        q != p ==> acl_of(with_acl(l, p, aces), q) == acl_of(l, q),
{
    let w = with_acl(l, p, aces);
    lemma_platform_index(l, p);
    lemma_platform_index(l, q);
    match platform_index(l, p) {
        Some(i) => {
            assert forall|j: int| 0 <= j < w.len() implies (#[trigger] w[j]).0 == l[j].0 by {}
            lemma_platform_index_at(w, p, i);
            if q != p {
                match platform_index(l, q) {
                    Some(k) => {
                        lemma_platform_index_at(w, q, k);
                        assert(k != i);
                    },
                    None => {
                        lemma_platform_index(w, q);
                        if let Some(k) = platform_index(w, q) {
                            assert(l[k].0 == q);
                        }
                    },
                }
            }
        },
        None => {
            assert forall|j: int| 0 <= j < l.len() implies (#[trigger] w[j]) == l[j] by {}
            lemma_platform_index_at(w, p, l.len() as int);
            if q != p {
                match platform_index(l, q) {
                    Some(k) => {
                        lemma_platform_index_at(w, q, k);
                    },
                    None => {
                        lemma_platform_index(w, q);
                        if let Some(k) = platform_index(w, q) {
                            if k < l.len() {
                                assert(l[k].0 == q);
                            }
                        }
                    },
                }
            }
        },
    }
}

/// Transforming touches one platform's list: every other platform keeps
/// its list; the platform has a list afterwards, its list transformed;
/// nothing that `remove` picks is left in it; and `set` alone makes it the
/// one entry set.
pub proof fn transform_touches_one_platform(
    l: Seq<(PlatformModel, Seq<AceModel>)>,
    platform: PlatformModel,
    set: Option<AclEntriesModel>,
    modify: Option<AclEntriesModel>,
    remove: Option<AclEntriesModel>,
    q: PlatformModel,
)
    ensures
        q != platform ==> acl_of(transformed_acls(l, platform, set, modify, remove), q) == acl_of(l, q),
        platform_index(transformed_acls(l, platform, set, modify, remove), platform) is Some,
        acl_of(transformed_acls(l, platform, set, modify, remove), platform) == transformed_list(
            acl_of(l, platform),
            platform,
            set,
            modify,
            remove,
        ),
        remove is Some ==> forall|k: int|
            0 <= k < acl_of(transformed_acls(l, platform, set, modify, remove), platform).len() ==> !entry_matches(
                remove->0,
                #[trigger] acl_of(transformed_acls(l, platform, set, modify, remove), platform)[k],
            ),
        set is Some && modify is None && remove is None ==> acl_of(
            transformed_acls(l, platform, set, modify, remove),
            platform,
        ) == seq![entry_ace(set->0, platform)],
{
    let t = transformed_list(acl_of(l, platform), platform, set, modify, remove);
    lemma_with_acl(l, platform, t, q);
    if let Some(e) = remove {
        let l1 = match set {
            Some(x) => seq![entry_ace(x, platform)],
            None => acl_of(l, platform),
        };
        let l2 = match modify {
            Some(x) => match first_matching(l1, x) {
                Some(i) => l1.update(i, AceModel { permission: entry_ace(x, platform).permission, ..l1[i] }),
                None => l1.push(entry_ace(x, platform)),
            },
            None => l1,
        };
        lemma_unmatched(l2, e);
    }
}

/// Removing keeps every entry that the argument does not pick.
proof fn lemma_unmatched_keeps(l: Seq<AceModel>, e: AclEntriesModel, k: int)
    requires
        0 <= k < l.len(),
        !entry_matches(e, l[k]),
    ensures
        unmatched(l, e).contains(l[k]),
    decreases l.len(),
{
    let d = l.drop_last();
    if k == l.len() - 1 {
        assert(unmatched(l, e) == unmatched(d, e).push(l.last()));
        assert(unmatched(l, e)[unmatched(d, e).len() as int] == l[k]);
    } else {
        assert(d[k] == l[k]);
        lemma_unmatched_keeps(d, e, k);
        let u = unmatched(d, e);
        let j = choose|j: int| 0 <= j < u.len() && u[j] == l[k];
        if !entry_matches(e, l.last()) {
            assert(u.push(l.last())[j] == l[k]);
        }
    }
}

/// An entry argument picks only entries of its own kind: one without the
/// default marker never picks an entry whose flags hold the default flag
/// (bit `1`), and one with it never picks an entry without it; the owner
/// is the argument's owner. An argument that names no allow or deny picks
/// every entry of its kind and owner.
pub proof fn entry_picks_only_its_default_kind(e: AclEntriesModel, a: AceModel)
    ensures
        entry_matches(e, a) ==> e.default == (a.flags & 1 != 0),
        entry_matches(e, a) ==> e.owner == a.owner_type,
        e.default == (a.flags & 1 != 0) && e.owner == a.owner_type && e.allow is None ==> entry_matches(e, a),
{
}

/// Removing with an argument keeps every entry of the platform's list
/// whose default flag (bit `1`) differs from the argument's default marker:
/// `u:alice` removes alice's access entries and keeps her inheritable ones.
pub proof fn remove_keeps_other_default_kind(
    l: Seq<(PlatformModel, Seq<AceModel>)>,
    platform: PlatformModel,
    e: AclEntriesModel,
    k: int,
)
    requires
        0 <= k < acl_of(l, platform).len(),
        (acl_of(l, platform)[k].flags & 1 != 0) != e.default,
    ensures
        acl_of(transformed_acls(l, platform, None, None, Some(e)), platform).contains(acl_of(l, platform)[k]),
{
    transform_touches_one_platform(l, platform, None, None, Some(e), platform);
    lemma_unmatched_keeps(acl_of(l, platform), e, k);
}

/// A copy of an entry.
pub fn ace_copy(a: &Ace) -> (r: Ace)
    ensures
        r@ == a@,
{
    Ace {
        platform: platform_copy(&a.platform),
        flags: a.flags,
        owner_type: owner_copy(&a.owner_type),
        allow: a.allow,
        permission: a.permission,
    }
}

/// A copy of a list of entries.
fn aces_copy(v: &Vec<Ace>) -> (r: Vec<Ace>)
    ensures
        aces_view(r@) == aces_view(v@),
{
    let mut out: Vec<Ace> = Vec::new();
    let mut i: usize = 0;
    while i < v.len()
        invariant
            i <= v.len(),
            aces_view(out@) =~= aces_view(v@).take(i as int),
        decreases v.len() - i,
    {
        let ghost before = aces_view(out@);
        out.push(ace_copy(&v[i]));
        assert(aces_view(out@) =~= before.push(v@[i as int]@));
        assert(aces_view(v@).take(i + 1) =~= aces_view(v@).take(i as int).push(v@[i as int]@));
        i = i + 1;
    }
    assert(aces_view(v@).take(v.len() as int) =~= aces_view(v@));
    out
}

/// The position of platform `p`'s list.
fn find_platform(entries: &Vec<(AcePlatform, Vec<Ace>)>, p: &AcePlatform) -> (r: Option<usize>)
    ensures
        r matches Some(i) ==> platform_index(acls_view(entries@), p@) == Some(i as int) && i < entries.len(),
        r is None ==> platform_index(acls_view(entries@), p@) is None,
{
    let ghost l = acls_view(entries@);
    let mut i: usize = 0;
    while i < entries.len()
        invariant
            i <= entries.len(),
            l == acls_view(entries@),
            platform_index(l.take(i as int), p@) is None,
        decreases entries.len() - i,
    {
        assert(l.take(i + 1).drop_last() =~= l.take(i as int));
        if platform_eq(&entries[i].0, p) {
            proof { lemma_platform_index_prefix(l, (i + 1) as nat, p@); }
            return Some(i);
        }
        i = i + 1;
    }
    assert(l.take(entries.len() as int) =~= l);
    None
}

/// A found platform is the platform of its position.
proof fn lemma_platform_index_found(l: Seq<(PlatformModel, Seq<AceModel>)>, p: PlatformModel)
    ensures
        platform_index(l, p) matches Some(i) ==> 0 <= i < l.len() && l[i].0 == p,
    decreases l.len(),
{
    if l.len() > 0 {
        lemma_platform_index_found(l.drop_last(), p);
    }
}

/// A found file is the file of its position.
proof fn lemma_file_index_found(l: Seq<(Seq<char>, Seq<(PlatformModel, Seq<AceModel>)>)>, f: Seq<char>)
    ensures
        file_index(l, f) matches Some(i) ==> 0 <= i < l.len() && l[i].0 == f,
    decreases l.len(),
{
    if l.len() > 0 {
        lemma_file_index_found(l.drop_last(), f);
    }
}

/// A platform found in a prefix is found there in the whole.
proof fn lemma_platform_index_prefix(l: Seq<(PlatformModel, Seq<AceModel>)>, n: nat, p: PlatformModel)
    requires
        n <= l.len(),
        platform_index(l.take(n as int), p) is Some,
    ensures
        platform_index(l, p) == platform_index(l.take(n as int), p),
    decreases l.len(),
{
    if l.len() == n {
        assert(l.take(n as int) =~= l);
    } else {
        assert(l.drop_last().take(n as int) =~= l.take(n as int));
        lemma_platform_index_prefix(l.drop_last(), n, p);
    }
}

/// An entry found in a prefix is found there in the whole.
proof fn lemma_first_matching_prefix(l: Seq<AceModel>, n: nat, e: AclEntriesModel)
    requires
        n <= l.len(),
        first_matching(l.take(n as int), e) is Some,
    ensures
        first_matching(l, e) == first_matching(l.take(n as int), e),
    decreases l.len(),
{
    if l.len() == n {
        assert(l.take(n as int) =~= l);
    } else {
        assert(l.drop_last().take(n as int) =~= l.take(n as int));
        lemma_first_matching_prefix(l.drop_last(), n, e);
    }
}

/// `set`, then `modify`, then `remove` on the list of `platform`.
fn transform_list(
    list: Vec<Ace>,
    platform: &AcePlatform,
    set: Option<&AclEntries>,
    modify: Option<&AclEntries>,
    remove: Option<&AclEntries>,
) -> (r: Vec<Ace>)
    ensures
        aces_view(r@) == transformed_list(
            aces_view(list@),
            platform@,
            match set { Some(e) => Some(e@), None => None },
            match modify { Some(e) => Some(e@), None => None },
            match remove { Some(e) => Some(e@), None => None },
        ),
{
    let ghost sv = match set { Some(e) => Some(e@), None => None::<AclEntriesModel> };
    let ghost mv = match modify { Some(e) => Some(e@), None => None::<AclEntriesModel> };
    let ghost rv = match remove { Some(e) => Some(e@), None => None::<AclEntriesModel> };
    let ghost l0 = aces_view(list@);
    let ghost l1 = match sv {
        Some(e) => seq![entry_ace(e, platform@)],
        None => l0,
    };
    let ghost l2 = match mv {
        Some(e) => match first_matching(l1, e) {
            Some(i) => l1.update(i, AceModel { permission: entry_ace(e, platform@).permission, ..l1[i] }),
            None => l1.push(entry_ace(e, platform@)),
        },
        None => l1,
    };
    let mut list = list;
    if let Some(set) = set {
        let ace = set.to_ace(platform);
        list = vec![ace];
        assert(aces_view(list@) =~= seq![entry_ace(set@, platform@)]);
    }
    assert(aces_view(list@) == l1);
    if let Some(modify) = modify {
        let ace = modify.to_ace(platform);
        let ghost l = aces_view(list@);
        let mut i: usize = 0;
        let mut found: Option<usize> = None;
        while i < list.len() && found.is_none()
            invariant
                i <= list.len(),
                l == aces_view(list@),
                found is None ==> first_matching(l.take(i as int), modify@) is None,
                found matches Some(k) ==> first_matching(l, modify@) == Some(k as int) && k < list.len(),
            decreases list.len() - i,
        {
            assert(l.take(i + 1).drop_last() =~= l.take(i as int));
            if modify.is_match(&list[i]) {
                proof { lemma_first_matching_prefix(l, (i + 1) as nat, modify@); }
                found = Some(i);
            }
            i = i + 1;
        }
        if found.is_none() {
            assert(l.take(list.len() as int) =~= l);
        }
        match found {
            Some(k) => {
                let mut item = ace_copy(&list[k]);
                item.permission = ace.permission;
                list.set(k, item);
                assert(aces_view(list@) =~= l.update(k as int, AceModel { permission: ace@.permission, ..l[k as int] }));
            },
            None => {
                list.push(ace);
                assert(aces_view(list@) =~= l.push(entry_ace(modify@, platform@)));
            },
        }
    }
    assert(aces_view(list@) == l2);
    if let Some(remove) = remove {
        let ghost l = aces_view(list@);
        let mut kept: Vec<Ace> = Vec::new();
        let mut i: usize = 0;
        assert(aces_view(kept@) =~= unmatched(l.take(0), remove@));
        while i < list.len()
            invariant
                i <= list.len(),
                l == aces_view(list@),
                aces_view(kept@) == unmatched(l.take(i as int), remove@),
            decreases list.len() - i,
        {
            assert(l.take(i + 1).drop_last() =~= l.take(i as int));
            if !remove.is_match(&list[i]) {
                let ghost before = aces_view(kept@);
                kept.push(ace_copy(&list[i]));
                assert(aces_view(kept@) =~= before.push(l[i as int]));
            }
            i = i + 1;
        }
        assert(l.take(list.len() as int) =~= l);
        list = kept;
    }
    list
}

/// Applies `set`, `modify` and `remove` to the list of `platform`, which
/// is added at the end if missing; the other lists stay as they are.
pub fn transform_acl(
    acls: Acls,
    platform: &AcePlatform,
    set: Option<&AclEntries>,
    modify: Option<&AclEntries>,
    remove: Option<&AclEntries>,
) -> (r: Acls)
    ensures
        r@ == transformed_acls(
            acls@,
            platform@,
            match set { Some(e) => Some(e@), None => None },
            match modify { Some(e) => Some(e@), None => None },
            match remove { Some(e) => Some(e@), None => None },
        ),
{
    let mut entries = acls.entries;
    let ghost l = acls_view(entries@);
    let (idx, current) = match find_platform(&entries, platform) {
        Some(i) => (i, aces_copy(&entries[i].1)),
        None => {
            let empty: Vec<Ace> = Vec::new();
            assert(aces_view(empty@) =~= Seq::<AceModel>::empty());
            entries.push((platform_copy(platform), empty));
            assert(acls_view(entries@) =~= l.push((platform@, Seq::<AceModel>::empty())));
            (entries.len() - 1, Vec::new())
        },
    };
    assert(aces_view(current@) == acl_of(l, platform@)) by {
        if platform_index(l, platform@) is None {
            assert(aces_view(current@) =~= Seq::<AceModel>::empty());
        }
    }
    let list = transform_list(current, platform, set, modify, remove);
    let ghost before = acls_view(entries@);
    let ghost lv = aces_view(list@);
    entries.set(idx, (platform_copy(platform), list));
    assert(acls_view(entries@) =~= before.update(idx as int, (platform@, lv)));
    Acls { entries }
}

/// The lists of an archive entry with `a` added to platform `p`'s list.
pub open spec fn acls_with_ace(l: Seq<(PlatformModel, Seq<AceModel>)>, p: PlatformModel, a: AceModel) -> Seq<(PlatformModel, Seq<AceModel>)> {
    with_acl(l, p, acl_of(l, p).push(a))
}

/// The position of the first record of file `f`.
pub open spec fn file_index(r: Seq<(Seq<char>, Seq<(PlatformModel, Seq<AceModel>)>)>, f: Seq<char>) -> Option<int>
    decreases r.len(),
{
    if r.len() == 0 {
        None
    } else {
        match file_index(r.drop_last(), f) {
            Some(i) => Some(i),
            None => if r.last().0 == f { Some(r.len() - 1) } else { None },
        }
    }
}

/// The records with `a` added for file `f` on platform `p`; a new file is
/// added at the end.
pub open spec fn dump_with_ace(
    r: Seq<(Seq<char>, Seq<(PlatformModel, Seq<AceModel>)>)>,
    f: Seq<char>,
    p: PlatformModel,
    a: AceModel,
) -> Seq<(Seq<char>, Seq<(PlatformModel, Seq<AceModel>)>)> {
    match file_index(r, f) {
        Some(i) => r.update(i, (f, acls_with_ace(r[i].1, p, a))),
        None => r.push((f, acls_with_ace(Seq::empty(), p, a))),
    }
}

/// Where reading a dump stands: the records so far, the current file and
/// the current platform.
pub ghost struct DumpState {
    pub records: Seq<(Seq<char>, Seq<(PlatformModel, Seq<AceModel>)>)>,
    pub file: Option<Seq<char>>,
    pub platform: PlatformModel,
}

/// Reads one line of a dump: empty lines and owner and group lines are
/// skipped, `# file: ` and `# platform: ` lines set the current file and
/// platform, and any other line under a file is an entry of it.
pub open spec fn dump_step(st: DumpState, line: Seq<char>) -> Result<DumpState, ParseAceErrorModel> {
    if line.len() == 0 {
        Ok(st)
    } else if starts_with(line, "# file: "@) {
        Ok(DumpState { file: Some(line.skip(8)), ..st })
    } else if starts_with(line, "# owner: "@) || starts_with(line, "# group: "@) {
        Ok(st)
    } else if starts_with(line, "# platform: "@) {
        Ok(DumpState { platform: crate::chunk::platform_of_text(line.skip(12)), ..st })
    } else {
        match st.file {
            Some(f) => match parse_ace(line) {
                Ok(a) => Ok(DumpState { records: dump_with_ace(st.records, f, st.platform, a), ..st }),
                Err(e) => Err(e),
            },
            None => Ok(st),
        }
    }
}

/// Reads the lines of a dump in order; the first entry that does not read
/// decides the error.
pub open spec fn dump_lines(lines: Seq<Seq<char>>) -> Result<DumpState, ParseAceErrorModel>
    decreases lines.len(),
{
    if lines.len() == 0 {
        Ok(DumpState { records: Seq::empty(), file: None, platform: PlatformModel::General })
    } else {
        match dump_lines(lines.drop_last()) {
            Ok(st) => dump_step(st, lines.last()),
            Err(e) => Err(e),
        }
    }
}

/// The values of the records of a dump.
pub open spec fn dump_view(v: Seq<(String, Acls)>) -> Seq<(Seq<char>, Seq<(PlatformModel, Seq<AceModel>)>)> {
    Seq::new(v.len(), |i: int| (v[i].0@, v[i].1@))
}

/// Adds `a` to platform `p`'s list.
fn push_ace(acls: Acls, p: &AcePlatform, a: Ace) -> (r: Acls)
    ensures
        r@ == acls_with_ace(acls@, p@, a@),
{
    let mut entries = acls.entries;
    let ghost l = acls_view(entries@);
    match find_platform(&entries, p) {
        Some(i) => {
            proof { lemma_platform_index_found(l, p@); }
            let (q, mut list) = entries.remove(i);
            let ghost lv = aces_view(list@);
            list.push(a);
            assert(aces_view(list@) =~= lv.push(a@));
            entries.insert(i, (q, list));
            assert(acls_view(entries@) =~= l.update(i as int, (p@, l[i as int].1.push(a@))));
        },
        None => {
            let list = vec![a];
            assert(aces_view(list@) =~= Seq::<AceModel>::empty().push(a@));
            entries.push((platform_copy(p), list));
            assert(acls_view(entries@) =~= l.push((p@, Seq::<AceModel>::empty().push(a@))));
        },
    }
    Acls { entries }
}

/// The position of file `f`'s record.
fn find_file(records: &Vec<(String, Acls)>, f: &[char]) -> (r: Option<usize>)
    ensures
        r matches Some(i) ==> file_index(dump_view(records@), f@) == Some(i as int) && i < records.len(),
        r is None ==> file_index(dump_view(records@), f@) is None,
{
    let ghost l = dump_view(records@);
    let mut i: usize = 0;
    while i < records.len()
        invariant
            i <= records.len(),
            l == dump_view(records@),
            file_index(l.take(i as int), f@) is None,
        decreases records.len() - i,
    {
        assert(l.take(i + 1).drop_last() =~= l.take(i as int));
        let name = chars_of(records[i].0.as_str());
        if chars_eq(name.as_slice(), f) {
            proof { lemma_file_index_prefix(l, (i + 1) as nat, f@); }
            return Some(i);
        }
        i = i + 1;
    }
    assert(l.take(records.len() as int) =~= l);
    None
}

/// A file found in a prefix is found there in the whole.
proof fn lemma_file_index_prefix(l: Seq<(Seq<char>, Seq<(PlatformModel, Seq<AceModel>)>)>, n: nat, f: Seq<char>)
    requires
        n <= l.len(),
        file_index(l.take(n as int), f) is Some,
    ensures
        file_index(l, f) == file_index(l.take(n as int), f),
    decreases l.len(),
{
    if l.len() == n {
        assert(l.take(n as int) =~= l);
    } else {
        assert(l.drop_last().take(n as int) =~= l.take(n as int));
        lemma_file_index_prefix(l.drop_last(), n, f);
    }
}

/// Once a line fails, the whole dump fails.
proof fn lemma_dump_prefix_err(lines: Seq<Seq<char>>, n: nat)
    requires
        n <= lines.len(),
        dump_lines(lines.take(n as int)) is Err,
    ensures
        dump_lines(lines) == dump_lines(lines.take(n as int)),
    decreases lines.len(),
{
    if lines.len() == n {
        assert(lines.take(n as int) =~= lines);
    } else {
        assert(lines.drop_last().take(n as int) =~= lines.take(n as int));
        lemma_dump_prefix_err(lines.drop_last(), n);
    }
}

/// The words that dump lines begin with.
proof fn lemma_dump_words()
    ensures
        "# file: "@.len() == 8,
        "# owner: "@.len() == 9,
        "# group: "@.len() == 9,
        "# platform: "@.len() == 12,
{
    reveal_strlit("# file: ");
    reveal_strlit("# owner: ");
    reveal_strlit("# group: ");
    reveal_strlit("# platform: ");
}

/// Reads the lines of a permission dump (as `acl get` prints it) into the
/// access-control lists of each file, files and platforms in the order
/// they first come.
pub fn parse_acl_dump(lines: &[String]) -> (r: Result<Vec<(String, Acls)>, ParseAceError>)
    ensures
        r matches Ok(v) ==> (dump_lines(Seq::new(lines@.len(), |i: int| lines@[i]@)) matches Ok(st)
            && st.records == dump_view(v@)),
        r matches Err(e) ==> dump_lines(Seq::new(lines@.len(), |i: int| lines@[i]@)) == Err::<DumpState, ParseAceErrorModel>(e@),
{
    proof { lemma_dump_words(); }
    let ghost lv = Seq::new(lines@.len(), |i: int| lines@[i]@);
    let mut records: Vec<(String, Acls)> = Vec::new();
    let mut file: Option<String> = None;
    let mut platform = AcePlatform::General;
    let mut i: usize = 0;
    assert(dump_view(records@) =~= Seq::<(Seq<char>, Seq<(PlatformModel, Seq<AceModel>)>)>::empty());
    while i < lines.len()
        invariant
            i <= lines.len(),
            lv == Seq::new(lines@.len(), |k: int| lines@[k]@),
            dump_lines(lv.take(i as int)) == Ok::<DumpState, ParseAceErrorModel>(DumpState {
                records: dump_view(records@),
                file: match file { Some(f) => Some(f@), None => None },
                platform: platform@,
            }),
        decreases lines.len() - i,
    {
        proof { lemma_dump_words(); }
        assert(lv.take(i + 1).drop_last() =~= lv.take(i as int));
        assert(lv.take(i + 1).last() == lines@[i as int]@);
        let line = chars_of(lines[i].as_str());
        let ls = line.as_slice();
        assert(ls@.skip(0) =~= ls@);
        if ls.len() == 0 {
        } else if starts_with_at(ls, 0, "# file: ") {
            let rest = chars_between(ls, 8, ls.len());
            assert(rest@ =~= ls@.skip(8));
            file = Some(string_from_chars(rest.as_slice()));
        } else if starts_with_at(ls, 0, "# owner: ") || starts_with_at(ls, 0, "# group: ") {
        } else if starts_with_at(ls, 0, "# platform: ") {
            let rest = chars_between(ls, 12, ls.len());
            assert(rest@ =~= ls@.skip(12));
            platform = AcePlatform::from_chars(rest.as_slice());
        } else {
            match &file {
                Some(f) => {
                    match Ace::from_str(lines[i].as_str()) {
                        Ok(a) => {
                            let fc = chars_of(f.as_str());
                            let ghost before = dump_view(records@);
                            match find_file(&records, fc.as_slice()) {
                                Some(k) => {
                                    proof { lemma_file_index_found(before, f@); }
                                    let (name, acls) = records.remove(k);
                                    let acls = push_ace(acls, &platform, a);
                                    records.insert(k, (name, acls));
                                    assert(dump_view(records@) =~= dump_with_ace(before, f@, platform@, a@));
                                },
                                None => {
                                    let empty = Acls { entries: Vec::new() };
                                    assert(empty@ =~= Seq::<(PlatformModel, Seq<AceModel>)>::empty());
                                    let acls = push_ace(empty, &platform, a);
                                    records.push((f.clone(), acls));
                                    assert(dump_view(records@) =~= dump_with_ace(before, f@, platform@, a@));
                                },
                            }
                        },
                        Err(e) => {
                            proof { lemma_dump_prefix_err(lv, (i + 1) as nat); }
                            assert(lv.take(lines.len() as int) =~= lv);
                            return Err(e);
                        },
                    }
                },
                None => {},
            }
        }
        i = i + 1;
    }
    assert(lv.take(lines.len() as int) =~= lv);
    Ok(records)
}

} // verus!
