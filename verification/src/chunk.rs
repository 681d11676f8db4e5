//! Access-control entries in the first text format of the archive chunk:
//! `platform:flags:kind:name:id:allow|deny:permissions`.
use vstd::prelude::*;
use crate::text::{
    chars_of, decimal, join_chars, join_with, parse_unsigned, parse_unsigned_spec, piece_at, push_all, push_piece,
    push_str, split_chars, split_on, string_from_chars, u64_to_chars, word_is, IntErrorKind,
};
use self::table::{
    member_bits, names_list, names_text, parse_member, table_mask, Table,
};

pub mod acl;
pub mod bits;
pub mod table;

pub use self::bits::{Flag, Permission};

verus! {

/// The platform that an access-control entry was written for.
#[derive(Clone, Debug, PartialEq, Eq, PartialOrd, Ord, Hash)]
pub enum AcePlatform {
    General,
    Windows,
    MacOs,
    Linux,
    FreeBSD,
    Unknown(String),
}

/// The value of a platform, its unknown name as characters.
pub ghost enum PlatformModel {
    General,
    Windows,
    MacOs,
    Linux,
    FreeBSD,
    Unknown(Seq<char>),
}

impl View for AcePlatform {
    type V = PlatformModel;

    open spec fn view(&self) -> PlatformModel {
        match self {
            AcePlatform::General => PlatformModel::General,
            AcePlatform::Windows => PlatformModel::Windows,
            AcePlatform::MacOs => PlatformModel::MacOs,
            AcePlatform::Linux => PlatformModel::Linux,
            AcePlatform::FreeBSD => PlatformModel::FreeBSD,
            AcePlatform::Unknown(s) => PlatformModel::Unknown(s@),
        }
    }
}

/// How a platform is written.
pub open spec fn platform_text(p: PlatformModel) -> Seq<char> {
    match p {
        PlatformModel::General => ""@,
        PlatformModel::Windows => "windows"@,
        PlatformModel::MacOs => "macos"@,
        PlatformModel::Linux => "linux"@,
        PlatformModel::FreeBSD => "freebsd"@,
        PlatformModel::Unknown(s) => s,
    }
}

/// The platform that a name stands for; any other name is kept as unknown.
pub open spec fn platform_of_text(t: Seq<char>) -> PlatformModel {
    if t == ""@ {
        PlatformModel::General
    } else if t == "windows"@ {
        PlatformModel::Windows
    } else if t == "macos"@ {
        PlatformModel::MacOs
    } else if t == "linux"@ {
        PlatformModel::Linux
    } else if t == "freebsd"@ {
        PlatformModel::FreeBSD
    } else {
        PlatformModel::Unknown(t)
    }
}

impl AcePlatform {
    /// The platform that this library is built for.
    pub fn current() -> (r: AcePlatform)
        ensures
            r@ == PlatformModel::Linux,
    {
        AcePlatform::Linux
    }

    /// The platform that a name stands for.
    pub fn from_chars(t: &[char]) -> (r: AcePlatform)
        ensures
            r@ == platform_of_text(t@),
    {
        if word_is(t, "") {
            AcePlatform::General
        } else if word_is(t, "windows") {
            AcePlatform::Windows
        } else if word_is(t, "macos") {
            AcePlatform::MacOs
        } else if word_is(t, "linux") {
            AcePlatform::Linux
        } else if word_is(t, "freebsd") {
            AcePlatform::FreeBSD
        } else {
            AcePlatform::Unknown(string_from_chars(t))
        }
    }

    /// Reads a platform name; every name is accepted.
    pub fn from_str(s: &str) -> (r: Result<AcePlatform, core::convert::Infallible>)
        ensures
            r matches Ok(p) && p@ == platform_of_text(s@),
    {
        let t = chars_of(s);
        Ok(AcePlatform::from_chars(t.as_slice()))
    }

    /// How the platform is written, as characters.
    pub fn to_chars(&self) -> (r: Vec<char>)
        ensures
            r@ == platform_text(self@),
    {
        let mut out: Vec<char> = Vec::new();
        match self {
            AcePlatform::General => {},
            AcePlatform::Windows => push_str(&mut out, "windows"),
            AcePlatform::MacOs => push_str(&mut out, "macos"),
            AcePlatform::Linux => push_str(&mut out, "linux"),
            AcePlatform::FreeBSD => push_str(&mut out, "freebsd"),
            AcePlatform::Unknown(s) => push_str(&mut out, s.as_str()),
        }
        proof { reveal_strlit(""); }
        assert(out@ =~= platform_text(self@));
        out
    }

    /// How the platform is written.
    pub fn to_string(&self) -> (r: String)
        ensures
            r@ == platform_text(self@),
    {
        let v = self.to_chars();
        string_from_chars(v.as_slice())
    }
}


/// Who an entry is about, by name, by numeric id, or both.
#[derive(Clone, Debug, PartialEq, Eq, PartialOrd, Ord, Hash)]
pub enum Identifier {
    Name(String),
    Id(u64),
    Both(String, u64),
}

/// The value of an identifier, its name as characters.
pub ghost enum IdentifierModel {
    Name(Seq<char>),
    Id(u64),
    Both(Seq<char>, u64),
}

impl View for Identifier {
    type V = IdentifierModel;

    open spec fn view(&self) -> IdentifierModel {
        match self {
            Identifier::Name(n) => IdentifierModel::Name(n@),
            Identifier::Id(i) => IdentifierModel::Id(*i),
            Identifier::Both(n, i) => IdentifierModel::Both(n@, *i),
        }
    }
}

/// The name field and the id field that an identifier is written as.
pub open spec fn identifier_fields(i: IdentifierModel) -> Seq<Seq<char>> {
    match i {
        IdentifierModel::Name(n) => seq![n, Seq::<char>::empty()],
        IdentifierModel::Id(v) => seq![Seq::<char>::empty(), decimal(v as nat)],
        IdentifierModel::Both(n, v) => seq![n, decimal(v as nat)],
    }
}

/// Who an access-control entry applies to.
#[derive(Clone, Debug, PartialEq, Eq, PartialOrd, Ord, Hash)]
pub enum OwnerType {
    Owner,
    User(Identifier),
    OwnerGroup,
    Group(Identifier),
    Mask,
    Other,
}

/// The value of an owner type.
pub ghost enum OwnerModel {
    Owner,
    User(IdentifierModel),
    OwnerGroup,
    Group(IdentifierModel),
    Mask,
    Other,
}

impl View for OwnerType {
    type V = OwnerModel;

    open spec fn view(&self) -> OwnerModel {
        match self {
            OwnerType::Owner => OwnerModel::Owner,
            OwnerType::User(i) => OwnerModel::User(i@),
            OwnerType::OwnerGroup => OwnerModel::OwnerGroup,
            OwnerType::Group(i) => OwnerModel::Group(i@),
            OwnerType::Mask => OwnerModel::Mask,
            OwnerType::Other => OwnerModel::Other,
        }
    }
}

/// The kind, name and id fields that an owner type is written as.
pub open spec fn owner_fields(o: OwnerModel) -> Seq<Seq<char>> {
    match o {
        OwnerModel::Owner => seq!["u"@, Seq::<char>::empty(), Seq::<char>::empty()],
        OwnerModel::User(i) => seq!["u"@] + identifier_fields(i),
        OwnerModel::OwnerGroup => seq!["g"@, Seq::<char>::empty(), Seq::<char>::empty()],
        OwnerModel::Group(i) => seq!["g"@] + identifier_fields(i),
        OwnerModel::Mask => seq!["m"@, Seq::<char>::empty(), Seq::<char>::empty()],
        OwnerModel::Other => seq!["o"@, Seq::<char>::empty(), Seq::<char>::empty()],
    }
}

impl Identifier {
    /// The name field and the id field of the identifier.
    pub fn fields(&self) -> (r: Vec<Vec<char>>)
        ensures
            r.deep_view() == identifier_fields(self@),
    {
        let mut out: Vec<Vec<char>> = Vec::new();
        match self {
            Identifier::Name(n) => {
                push_piece(&mut out, chars_of(n.as_str()));
                push_piece(&mut out, Vec::new());
            },
            Identifier::Id(v) => {
                push_piece(&mut out, Vec::new());
                push_piece(&mut out, u64_to_chars(*v));
            },
            Identifier::Both(n, v) => {
                push_piece(&mut out, chars_of(n.as_str()));
                push_piece(&mut out, u64_to_chars(*v));
            },
        }
        assert(out.deep_view() =~= identifier_fields(self@));
        out
    }

    /// How the identifier is written: name and id around a colon.
    pub fn to_string(&self) -> (r: String)
        ensures
            r@ == join_with(identifier_fields(self@), ':'),
    {
        let f = self.fields();
        let t = join_chars(&f, ':');
        string_from_chars(t.as_slice())
    }
}

impl OwnerType {
    /// The kind, name and id fields of the owner type.
    pub fn fields(&self) -> (r: Vec<Vec<char>>)
        ensures
            r.deep_view() == owner_fields(self@),
    {
        let mut out: Vec<Vec<char>> = Vec::new();
        match self {
            OwnerType::Owner | OwnerType::OwnerGroup | OwnerType::Mask | OwnerType::Other => {
                let k = match self {
                    OwnerType::Owner => "u",
                    OwnerType::OwnerGroup => "g",
                    OwnerType::Mask => "m",
                    _ => "o",
                };
                push_piece(&mut out, chars_of(k));
                push_piece(&mut out, Vec::new());
                push_piece(&mut out, Vec::new());
            },
            OwnerType::User(i) | OwnerType::Group(i) => {
                let k = match self {
                    OwnerType::User(_) => "u",
                    _ => "g",
                };
                push_piece(&mut out, chars_of(k));
                let f = i.fields();
                push_piece(&mut out, piece_at(&f, 0));
                push_piece(&mut out, piece_at(&f, 1));
            },
        }
        assert(out.deep_view() =~= owner_fields(self@));
        out
    }

    /// How the owner type is written: kind, name and id between colons.
    pub fn to_string(&self) -> (r: String)
        ensures
            r@ == join_with(owner_fields(self@), ':'),
    {
        let f = self.fields();
        let t = join_chars(&f, ':');
        string_from_chars(t.as_slice())
    }
}


/// Why a text is not an access-control entry.
#[derive(Clone, Debug, PartialEq, Eq)]
pub enum ParseAceError {
    NotEnoughElement,
    TooManyElement,
    ParseIntError(IntErrorKind),
    UnexpectedAccessControl(String),
    UnexpectedOwnerType(String),
}

/// The value of a parse error, its text as characters.
pub ghost enum ParseAceErrorModel {
    NotEnoughElement,
    TooManyElement,
    ParseIntError(IntErrorKind),
    UnexpectedAccessControl(Seq<char>),
    UnexpectedOwnerType(Seq<char>),
}

impl View for ParseAceError {
    type V = ParseAceErrorModel;

    open spec fn view(&self) -> ParseAceErrorModel {
        match self {
            ParseAceError::NotEnoughElement => ParseAceErrorModel::NotEnoughElement,
            ParseAceError::TooManyElement => ParseAceErrorModel::TooManyElement,
            ParseAceError::ParseIntError(k) => ParseAceErrorModel::ParseIntError(*k),
            ParseAceError::UnexpectedAccessControl(s) => ParseAceErrorModel::UnexpectedAccessControl(s@),
            ParseAceError::UnexpectedOwnerType(s) => ParseAceErrorModel::UnexpectedOwnerType(s@),
        }
    }
}

impl ParseAceError {
    /// The error for an integer that could not be read.
    pub fn from_int_error(kind: IntErrorKind) -> (r: ParseAceError)
        ensures
            r == ParseAceError::ParseIntError(kind),
    {
        ParseAceError::ParseIntError(kind)
    }
}

/// Access-control entry.
#[derive(Clone, Debug, PartialEq, Eq, PartialOrd, Ord, Hash)]
pub struct Ace {
    pub platform: AcePlatform,
    pub flags: Flag,
    pub owner_type: OwnerType,
    pub allow: bool,
    pub permission: Permission,
}

/// The value of an access-control entry.
pub ghost struct AceModel {
    pub platform: PlatformModel,
    pub flags: u8,
    pub owner_type: OwnerModel,
    pub allow: bool,
    pub permission: u16,
}

impl View for Ace {
    type V = AceModel;

    open spec fn view(&self) -> AceModel {
        AceModel {
            platform: self.platform@,
            flags: self.flags.bits,
            owner_type: self.owner_type@,
            allow: self.allow,
            permission: self.permission.bits,
        }
    }
}

/// The seven fields that an entry is written as.
pub open spec fn ace_fields(a: AceModel) -> Seq<Seq<char>> {
    seq![platform_text(a.platform), names_text(Table::LegacyFlag, a.flags as u16)]
        + owner_fields(a.owner_type)
        + seq![if a.allow { "allow"@ } else { "deny"@ }, names_text(Table::Permission, a.permission)]
}

/// How an entry is written: its fields between colons.
pub open spec fn ace_text(a: AceModel) -> Seq<char> {
    join_with(ace_fields(a), ':')
}

/// The id of a user or group read from its field.
pub open spec fn id_of(t: Seq<char>) -> Result<u64, ParseAceErrorModel> {
    match parse_unsigned_spec(t, 10, u64::MAX as nat) {
        Ok(v) => Ok(v as u64),
        Err(e) => Err(ParseAceErrorModel::ParseIntError(e)),
    }
}

/// The identifier written as a name field and an id field that are not
/// both empty.
pub open spec fn identifier_of(name: Seq<char>, id: Seq<char>) -> Result<IdentifierModel, ParseAceErrorModel> {
    if name.len() == 0 {
        match id_of(id) {
            Ok(v) => Ok(IdentifierModel::Id(v)),
            Err(e) => Err(e),
        }
    } else if id.len() == 0 {
        Ok(IdentifierModel::Name(name))
    } else {
        match id_of(id) {
            Ok(v) => Ok(IdentifierModel::Both(name, v)),
            Err(e) => Err(e),
        }
    }
}

/// The owner type written as kind, name and id fields.
pub open spec fn owner_of(kind: Seq<char>, name: Seq<char>, id: Seq<char>) -> Result<OwnerModel, ParseAceErrorModel> {
    if kind == "u"@ || kind == "user"@ {
        if name.len() == 0 && id.len() == 0 {
            Ok(OwnerModel::Owner)
        } else {
            match identifier_of(name, id) {
                Ok(i) => Ok(OwnerModel::User(i)),
                Err(e) => Err(e),
            }
        }
    } else if kind == "g"@ || kind == "group"@ {
        if name.len() == 0 && id.len() == 0 {
            Ok(OwnerModel::OwnerGroup)
        } else {
            match identifier_of(name, id) {
                Ok(i) => Ok(OwnerModel::Group(i)),
                Err(e) => Err(e),
            }
        }
    } else if kind == "m"@ || kind == "mask"@ {
        Ok(OwnerModel::Mask)
    } else if kind == "o"@ || kind == "other"@ {
        Ok(OwnerModel::Other)
    } else {
        Err(ParseAceErrorModel::UnexpectedOwnerType(kind))
    }
}

/// Reads an entry: the fields are taken in order, a missing field fails
/// where it is needed, and flags and permissions are read by membership.
pub open spec fn parse_ace(s: Seq<char>) -> Result<AceModel, ParseAceErrorModel> {
    let p = split_on(s, ':');
    if p.len() < 5 {
        Err(ParseAceErrorModel::NotEnoughElement)
    } else {
        match owner_of(p[2], p[3], p[4]) {
            Err(e) => Err(e),
            Ok(owner) => if p.len() < 6 {
                Err(ParseAceErrorModel::NotEnoughElement)
            } else if p[5] != "allow"@ && p[5] != "deny"@ {
                Err(ParseAceErrorModel::UnexpectedAccessControl(p[5]))
            } else if p.len() < 7 {
                Err(ParseAceErrorModel::NotEnoughElement)
            } else if p.len() > 7 {
                Err(ParseAceErrorModel::TooManyElement)
            } else {
                Ok(AceModel {
                    platform: platform_of_text(p[0]),
                    flags: member_bits(split_on(p[1], ','), Table::LegacyFlag) as u8,
                    owner_type: owner,
                    allow: p[5] == "allow"@,
                    permission: member_bits(split_on(p[6], ','), Table::Permission),
                })
            },
        }
    }
}

/// Reads a user or group id.
fn read_id(t: &[char]) -> (r: Result<u64, ParseAceError>)
    ensures
        r matches Ok(v) ==> id_of(t@) == Ok::<u64, ParseAceErrorModel>(v),
        r matches Err(e) ==> id_of(t@) == Err::<u64, ParseAceErrorModel>(e@),
{
    match parse_unsigned(t, 10, u64::MAX) {
        Ok(v) => Ok(v),
        Err(e) => Err(ParseAceError::from_int_error(e)),
    }
}

/// Reads an identifier from a name field and an id field, not both empty.
fn read_identifier(name: &[char], id: &[char]) -> (r: Result<Identifier, ParseAceError>)
    ensures
        r matches Ok(i) ==> identifier_of(name@, id@) == Ok::<IdentifierModel, ParseAceErrorModel>(i@),
        r matches Err(e) ==> identifier_of(name@, id@) == Err::<IdentifierModel, ParseAceErrorModel>(e@),
{
    if name.len() == 0 {
        match read_id(id) {
            Ok(v) => Ok(Identifier::Id(v)),
            Err(e) => Err(e),
        }
    } else if id.len() == 0 {
        Ok(Identifier::Name(string_from_chars(name)))
    } else {
        match read_id(id) {
            Ok(v) => Ok(Identifier::Both(string_from_chars(name), v)),
            Err(e) => Err(e),
        }
    }
}

/// Reads an owner type from its kind, name and id fields.
fn read_owner(kind: &[char], name: &[char], id: &[char]) -> (r: Result<OwnerType, ParseAceError>)
    ensures
        r matches Ok(o) ==> owner_of(kind@, name@, id@) == Ok::<OwnerModel, ParseAceErrorModel>(o@),
        r matches Err(e) ==> owner_of(kind@, name@, id@) == Err::<OwnerModel, ParseAceErrorModel>(e@),
{
    if word_is(kind, "u") || word_is(kind, "user") {
        if name.len() == 0 && id.len() == 0 {
            Ok(OwnerType::Owner)
        } else {
            match read_identifier(name, id) {
                Ok(i) => Ok(OwnerType::User(i)),
                Err(e) => Err(e),
            }
        }
    } else if word_is(kind, "g") || word_is(kind, "group") {
        if name.len() == 0 && id.len() == 0 {
            Ok(OwnerType::OwnerGroup)
        } else {
            match read_identifier(name, id) {
                Ok(i) => Ok(OwnerType::Group(i)),
                Err(e) => Err(e),
            }
        }
    } else if word_is(kind, "m") || word_is(kind, "mask") {
        Ok(OwnerType::Mask)
    } else if word_is(kind, "o") || word_is(kind, "other") {
        Ok(OwnerType::Other)
    } else {
        Err(ParseAceError::UnexpectedOwnerType(string_from_chars(kind)))
    }
}

impl Ace {
    /// Reads an entry from its text.
    pub fn from_str(s: &str) -> (r: Result<Ace, ParseAceError>)
        ensures
            r matches Ok(a) ==> parse_ace(s@) == Ok::<AceModel, ParseAceErrorModel>(a@),
            r matches Err(e) ==> parse_ace(s@) == Err::<AceModel, ParseAceErrorModel>(e@),
    {
        let cs = chars_of(s);
        let p = split_chars(cs.as_slice(), ':');
        proof { crate::text::lemma_split_nonempty(cs@, ':'); }
        assert(p.deep_view().len() == p.len());
        if p.len() < 5 {
            return Err(ParseAceError::NotEnoughElement);
        }
        let p0 = piece_at(&p, 0);
        let p1 = piece_at(&p, 1);
        let p2 = piece_at(&p, 2);
        let p3 = piece_at(&p, 3);
        let p4 = piece_at(&p, 4);
        let platform = AcePlatform::from_chars(p0.as_slice());
        let flag_items = split_chars(p1.as_slice(), ',');
        let flag_bits = parse_member(Table::LegacyFlag, &flag_items);
        let owner = match read_owner(p2.as_slice(), p3.as_slice(), p4.as_slice()) {
            Ok(o) => o,
            Err(e) => return Err(e),
        };
        if p.len() < 6 {
            return Err(ParseAceError::NotEnoughElement);
        }
        let p5 = piece_at(&p, 5);
        let allow = if word_is(p5.as_slice(), "allow") {
            true
        } else if word_is(p5.as_slice(), "deny") {
            false
        } else {
            return Err(ParseAceError::UnexpectedAccessControl(string_from_chars(p5.as_slice())));
        };
        if p.len() < 7 {
            return Err(ParseAceError::NotEnoughElement);
        }
        let p6 = piece_at(&p, 6);
        let perm_items = split_chars(p6.as_slice(), ',');
        let perm_bits = parse_member(Table::Permission, &perm_items);
        if p.len() > 7 {
            return Err(ParseAceError::TooManyElement);
        }
        Ok(Ace {
            platform,
            flags: Flag::from_bits_retain(flag_bits as u8),
            owner_type: owner,
            allow,
            permission: Permission::from_bits_retain(perm_bits),
        })
    }

    /// The seven fields of the entry's text.
    pub fn fields(&self) -> (r: Vec<Vec<char>>)
        ensures
            r.deep_view() == ace_fields(self@),
    {
        let mut out: Vec<Vec<char>> = Vec::new();
        push_piece(&mut out, self.platform.to_chars());
        let fl = names_list(Table::LegacyFlag, self.flags.bits as u16);
        push_piece(&mut out, join_chars(&fl, ','));
        let o = self.owner_type.fields();
        push_piece(&mut out, piece_at(&o, 0));
        push_piece(&mut out, piece_at(&o, 1));
        push_piece(&mut out, piece_at(&o, 2));
        push_piece(&mut out, if self.allow { chars_of("allow") } else { chars_of("deny") });
        let pl = names_list(Table::Permission, self.permission.bits);
        push_piece(&mut out, join_chars(&pl, ','));
        assert(out.deep_view() =~= ace_fields(self@));
        out
    }

    /// How the entry is written.
    pub fn to_string(&self) -> (r: String)
        ensures
            r@ == ace_text(self@),
    {
        let f = self.fields();
        let t = join_chars(&f, ':');
        string_from_chars(t.as_slice())
    }

    /// The entry's text in UTF-8, as it is stored in the archive chunk.
    pub fn to_bytes(&self) -> (r: Vec<u8>)
        ensures
            r@ == vstd::utf8::encode_utf8(ace_text(self@)),
    {
        let s = self.to_string();
        vstd::slice::slice_to_vec(s.as_str().as_bytes())
    }
}


/// Permissions that imply generic read.
pub open spec fn read_group() -> u16 {
    0x4541
}

/// Permissions that imply generic write.
pub open spec fn write_group() -> u16 {
    0x8a9a
}

/// The generic read, write and execute permissions that platform
/// permissions amount to.
pub open spec fn general_permission(p: u16) -> u16 {
    (if p & read_group() != 0 { 1u16 } else { 0u16 })
        | (if p & write_group() != 0 { 2u16 } else { 0u16 })
        | (if p & 4 != 0 { 4u16 } else { 0u16 })
}

/// The platform permissions that generic permissions stand for.
pub open spec fn expanded_permission(p: u16) -> u16 {
    (if p & 1 != 0 { read_group() } else { 0u16 })
        | (if p & 2 != 0 { write_group() } else { 0u16 })
        | (if p & 4 != 0 { 4u16 } else { 0u16 })
}

/// An entry with another platform, flags and permission.
pub open spec fn ace_with(a: AceModel, platform: PlatformModel, flags: u8, permission: u16) -> AceModel {
    AceModel { platform, flags, owner_type: a.owner_type, allow: a.allow, permission }
}

/// An entry in generic form.
pub open spec fn ace_to_generic_spec(a: AceModel) -> AceModel {
    match a.platform {
        PlatformModel::General => a,
        PlatformModel::Windows => ace_with(a, PlatformModel::General, 0, general_permission(a.permission)),
        PlatformModel::MacOs => ace_with(a, PlatformModel::General, a.flags & 0x3e, general_permission(a.permission)),
        PlatformModel::Linux => ace_with(a, PlatformModel::Linux, a.flags & 1, general_permission(a.permission)),
        PlatformModel::FreeBSD => ace_with(a, PlatformModel::General, a.flags, general_permission(a.permission)),
        PlatformModel::Unknown(_) => ace_with(a, PlatformModel::General, 0, general_permission(a.permission)),
    }
}

/// An entry moved to a platform whose permissions are the expanded generic
/// ones.
pub open spec fn ace_expanded_to(a: AceModel, target: PlatformModel) -> AceModel {
    if a.platform == target {
        a
    } else {
        let g = ace_to_generic_spec(a);
        ace_with(g, target, g.flags, expanded_permission(g.permission))
    }
}

/// An entry moved to Linux: its generic form, marked as Linux.
pub open spec fn ace_to_linux_spec(a: AceModel) -> AceModel {
    if a.platform == PlatformModel::Linux {
        a
    } else {
        let g = ace_to_generic_spec(a);
        ace_with(g, PlatformModel::Linux, g.flags, g.permission)
    }
}

/// An entry converted for a platform.
pub open spec fn ace_convert_spec(a: AceModel, to: PlatformModel) -> AceModel {
    match to {
        PlatformModel::General => ace_to_generic_spec(a),
        PlatformModel::Unknown(_) => ace_to_generic_spec(a),
        PlatformModel::Windows => ace_expanded_to(a, PlatformModel::Windows),
        PlatformModel::MacOs => ace_expanded_to(a, PlatformModel::MacOs),
        PlatformModel::Linux => ace_to_linux_spec(a),
        PlatformModel::FreeBSD => ace_expanded_to(a, PlatformModel::FreeBSD),
    }
}

/// Converting a generic entry for Windows, macOS or FreeBSD gives, for
/// each generic permission it holds, every permission of that kind: read
/// (`0x1`) gives `0x4541`, write (`0x2`) gives `0x8a9a`, execute (`0x4`)
/// gives `0x4`; converting any other entry to generic form keeps read
/// where any of `0x4541` is held, write where any of `0x8a9a` is, execute
/// where `0x4` is.
pub proof fn permission_kinds_convert(a: AceModel, to: PlatformModel)
    ensures
        a.platform == PlatformModel::General && (to == PlatformModel::Windows || to == PlatformModel::MacOs || to
            == PlatformModel::FreeBSD) ==> ace_convert_spec(a, to).permission == (if a.permission & 0x1 != 0 {
            0x4541u16
        } else {
            0u16
        }) | (if a.permission & 0x2 != 0 { 0x8a9au16 } else { 0u16 }) | (if a.permission & 0x4 != 0 { 0x4u16 } else {
            0u16
        }),
        a.platform != PlatformModel::General ==> ace_convert_spec(
            a,
            PlatformModel::General,
        ).permission == (if a.permission & 0x4541 != 0 { 1u16 } else { 0u16 }) | (if a.permission & 0x8a9a != 0 {
            2u16
        } else {
            0u16
        }) | (if a.permission & 0x4 != 0 { 4u16 } else { 0u16 }),
{
}

/// Converts an entry for the platform `to`.
pub fn ace_convert_platform(src: Ace, to: AcePlatform) -> (r: Ace)
    ensures
        r@ == ace_convert_spec(src@, to@),
{
    match &to {
        AcePlatform::General | AcePlatform::Unknown(_) => ace_to_generic(src),
        AcePlatform::Windows => ace_to_windows(src),
        AcePlatform::MacOs => ace_to_macos(src),
        AcePlatform::Linux => ace_to_linux(src),
        AcePlatform::FreeBSD => ace_to_freebsd(src),
    }
}

/// Generic read, write and execute from platform permissions: each generic
/// permission that some permission of its group implies.
pub fn to_general_permission(src_permission: Permission) -> (r: Permission)
    ensures
        r.bits == general_permission(src_permission.bits),
{
    let p = src_permission.bits;
    let any_read = src_permission.contains(Permission::read())
        || src_permission.contains(Permission::read_data())
        || src_permission.contains(Permission::readattr())
        || src_permission.contains(Permission::readextattr())
        || src_permission.contains(Permission::readsecurity());
    let any_write = src_permission.contains(Permission::write())
        || src_permission.contains(Permission::write_data())
        || src_permission.contains(Permission::writeattr())
        || src_permission.contains(Permission::writeextattr())
        || src_permission.contains(Permission::writesecurity())
        || src_permission.contains(Permission::append())
        || src_permission.contains(Permission::delete());
    let any_exec = src_permission.contains(Permission::execute());
    proof {
        assert((p & 0x4541u16 != 0) == (p & 0x1u16 == 0x1u16 || p & 0x4000u16 == 0x4000u16
            || p & 0x40u16 == 0x40u16 || p & 0x100u16 == 0x100u16 || p & 0x400u16 == 0x400u16)) by (bit_vector);
        assert((p & 0x8a9au16 != 0) == (p & 0x2u16 == 0x2u16 || p & 0x8000u16 == 0x8000u16
            || p & 0x80u16 == 0x80u16 || p & 0x200u16 == 0x200u16 || p & 0x800u16 == 0x800u16
            || p & 0x10u16 == 0x10u16 || p & 0x8u16 == 0x8u16)) by (bit_vector);
        assert((p & 4u16 != 0) == (p & 4u16 == 4u16)) by (bit_vector);
    }
    let a: u16 = if any_read { 1 } else { 0 };
    let b: u16 = if any_write { 2 } else { 0 };
    let c: u16 = if any_exec { 4 } else { 0 };
    Permission::from_bits_retain((a | b) | c)
}

/// The platform permissions that generic permissions stand for.
pub fn expand_permission(src_permission: Permission) -> (r: Permission)
    ensures
        r.bits == expanded_permission(src_permission.bits),
{
    let p = src_permission.bits;
    proof {
        assert((p & 1u16 != 0) == (p & 1u16 == 1u16) && (p & 2u16 != 0) == (p & 2u16 == 2u16)
            && (p & 4u16 != 0) == (p & 4u16 == 4u16)) by (bit_vector);
    }
    let a: u16 = if src_permission.contains(Permission::read()) { 0x4541 } else { 0 };
    let b: u16 = if src_permission.contains(Permission::write()) { 0x8a9a } else { 0 };
    let c: u16 = if src_permission.contains(Permission::execute()) { 4 } else { 0 };
    Permission::from_bits_retain((a | b) | c)
}

/// Converts an entry to generic form.
pub fn ace_to_generic(src: Ace) -> (r: Ace)
    ensures
        r@ == ace_to_generic_spec(src@),
{
    match src.platform {
        AcePlatform::General => src,
        AcePlatform::Windows => Ace {
            platform: AcePlatform::General,
            flags: Flag::empty(),
            owner_type: src.owner_type,
            allow: src.allow,
            permission: to_general_permission(src.permission),
        },
        AcePlatform::MacOs => Ace {
            platform: AcePlatform::General,
            flags: Flag::from_bits_retain(src.flags.bits & 0x3e),
            owner_type: src.owner_type,
            allow: src.allow,
            permission: to_general_permission(src.permission),
        },
        AcePlatform::Linux => Ace {
            platform: AcePlatform::Linux,
            flags: Flag::from_bits_retain(src.flags.bits & 1),
            owner_type: src.owner_type,
            allow: src.allow,
            permission: to_general_permission(src.permission),
        },
        AcePlatform::FreeBSD => Ace {
            platform: AcePlatform::General,
            flags: src.flags,
            owner_type: src.owner_type,
            allow: src.allow,
            permission: to_general_permission(src.permission),
        },
        AcePlatform::Unknown(_) => Ace {
            platform: AcePlatform::General,
            flags: Flag::empty(),
            owner_type: src.owner_type,
            allow: src.allow,
            permission: to_general_permission(src.permission),
        },
    }
}

/// Converts an entry for Windows.
pub fn ace_to_windows(src: Ace) -> (r: Ace)
    ensures
        r@ == ace_expanded_to(src@, PlatformModel::Windows),
{
    match src.platform {
        AcePlatform::Windows => src,
        _ => {
            let g = ace_to_generic(src);
            Ace {
                platform: AcePlatform::Windows,
                flags: g.flags,
                owner_type: g.owner_type,
                allow: g.allow,
                permission: expand_permission(g.permission),
            }
        },
    }
}

/// Converts an entry for Linux.
pub fn ace_to_linux(src: Ace) -> (r: Ace)
    ensures
        r@ == ace_to_linux_spec(src@),
{
    match src.platform {
        AcePlatform::Linux => src,
        _ => {
            let mut g = ace_to_generic(src);
            g.platform = AcePlatform::Linux;
            g
        },
    }
}

/// Converts an entry for macOS.
pub fn ace_to_macos(src: Ace) -> (r: Ace)
    ensures
        r@ == ace_expanded_to(src@, PlatformModel::MacOs),
{
    match src.platform {
        AcePlatform::MacOs => src,
        _ => {
            let g = ace_to_generic(src);
            Ace {
                platform: AcePlatform::MacOs,
                flags: g.flags,
                owner_type: g.owner_type,
                allow: g.allow,
                permission: expand_permission(g.permission),
            }
        },
    }
}

/// Converts an entry for FreeBSD.
pub fn ace_to_freebsd(src: Ace) -> (r: Ace)
    ensures
        r@ == ace_expanded_to(src@, PlatformModel::FreeBSD),
{
    match src.platform {
        AcePlatform::FreeBSD => src,
        _ => {
            let g = ace_to_generic(src);
            Ace {
                platform: AcePlatform::FreeBSD,
                flags: g.flags,
                owner_type: g.owner_type,
                allow: g.allow,
                permission: expand_permission(g.permission),
            }
        },
    }
}

/// Whether an identifier's name can be written and read back: not empty
/// and without a colon.
pub open spec fn identifier_writable(i: IdentifierModel) -> bool {
    match i {
        IdentifierModel::Name(n) => n.len() > 0 && !n.contains(':'),
        IdentifierModel::Id(_) => true,
        IdentifierModel::Both(n, _) => n.len() > 0 && !n.contains(':'),
    }
}

/// Whether an entry can be written and read back unchanged: an unknown
/// platform's name has no colon and is no known platform's name (the
/// empty name included), only defined flags are set, and identifier names
/// are not empty and have no colon.
pub open spec fn ace_writable(a: AceModel) -> bool {
    &&& match a.platform {
        PlatformModel::Unknown(s) => !s.contains(':') && platform_of_text(s) == PlatformModel::Unknown(s),
        _ => true,
    }
    &&& a.flags & 0x3f == a.flags
    &&& match a.owner_type {
        OwnerModel::User(i) => identifier_writable(i),
        OwnerModel::Group(i) => identifier_writable(i),
        _ => true,
    }
}

proof fn lemma_decimal_plain(v: u64)
    ensures
        decimal(v as nat).len() > 0,
        !decimal(v as nat).contains(':'),
        decimal(v as nat)[0] != '+' && decimal(v as nat)[0] != '-',
        parse_unsigned_spec(decimal(v as nat), 10, u64::MAX as nat) == Ok::<nat, IntErrorKind>(v as nat),
{
    crate::text::lemma_decimal_roundtrip(v as nat, u64::MAX as nat);
    let d = decimal(v as nat);
    assert(!d.contains(':')) by {
        if d.contains(':') {
            let k = choose|k: int| 0 <= k < d.len() && d[k] == ':';
            assert('0' <= d[k] <= '9');
        }
    }
    assert('0' <= d[0] <= '9');
}

proof fn lemma_identifier_roundtrip(i: IdentifierModel)
    requires
        identifier_writable(i),
    ensures
        identifier_of(identifier_fields(i)[0], identifier_fields(i)[1]) == Ok::<IdentifierModel, ParseAceErrorModel>(i),
        !identifier_fields(i)[0].contains(':'),
        !identifier_fields(i)[1].contains(':'),
        identifier_fields(i)[0].len() > 0 || identifier_fields(i)[1].len() > 0,
        identifier_fields(i).len() == 2,
{
    match i {
        IdentifierModel::Name(n) => {},
        IdentifierModel::Id(v) => { lemma_decimal_plain(v); },
        IdentifierModel::Both(n, v) => { lemma_decimal_plain(v); },
    }
}

/// The characters of the words that entries are written with.
pub proof fn lemma_words()
    ensures
        ""@ == Seq::<char>::empty(),
        "windows"@ == seq!['w', 'i', 'n', 'd', 'o', 'w', 's'],
        "macos"@ == seq!['m', 'a', 'c', 'o', 's'],
        "linux"@ == seq!['l', 'i', 'n', 'u', 'x'],
        "freebsd"@ == seq!['f', 'r', 'e', 'e', 'b', 's', 'd'],
        "u"@ == seq!['u'],
        "user"@ == seq!['u', 's', 'e', 'r'],
        "g"@ == seq!['g'],
        "group"@ == seq!['g', 'r', 'o', 'u', 'p'],
        "m"@ == seq!['m'],
        "mask"@ == seq!['m', 'a', 's', 'k'],
        "o"@ == seq!['o'],
        "other"@ == seq!['o', 't', 'h', 'e', 'r'],
        "allow"@ == seq!['a', 'l', 'l', 'o', 'w'],
        "deny"@ == seq!['d', 'e', 'n', 'y'],
        ""@.len() == 0,
        "windows"@.len() == 7,
        "macos"@.len() == 5,
        "linux"@.len() == 5,
        "freebsd"@.len() == 7,
        "u"@.len() == 1,
        "user"@.len() == 4,
        "g"@.len() == 1,
        "group"@.len() == 5,
        "m"@.len() == 1,
        "mask"@.len() == 4,
        "o"@.len() == 1,
        "other"@.len() == 5,
        "allow"@.len() == 5,
        "deny"@.len() == 4,
        "windows"@[0] == 'w',
        "macos"@[0] == 'm',
        "linux"@[0] == 'l',
        "freebsd"@[0] == 'f',
        "u"@[0] == 'u',
        "user"@[0] == 'u',
        "g"@[0] == 'g',
        "group"@[0] == 'g',
        "m"@[0] == 'm',
        "mask"@[0] == 'm',
        "o"@[0] == 'o',
        "other"@[0] == 'o',
        "allow"@[0] == 'a',
        "deny"@[0] == 'd',
{
    reveal_strlit("");
    reveal_strlit("windows");
    reveal_strlit("macos");
    reveal_strlit("linux");
    reveal_strlit("freebsd");
    reveal_strlit("u");
    reveal_strlit("user");
    reveal_strlit("g");
    reveal_strlit("group");
    reveal_strlit("m");
    reveal_strlit("mask");
    reveal_strlit("o");
    reveal_strlit("other");
    reveal_strlit("allow");
    reveal_strlit("deny");
    assert(""@.len() == 0);
    assert("windows"@.len() == 7);
    assert("macos"@.len() == 5);
    assert("linux"@.len() == 5);
    assert("freebsd"@.len() == 7);
    assert("u"@.len() == 1);
    assert("user"@.len() == 4);
    assert("g"@.len() == 1);
    assert("group"@.len() == 5);
    assert("m"@.len() == 1);
    assert("mask"@.len() == 4);
    assert("o"@.len() == 1);
    assert("other"@.len() == 5);
    assert("allow"@.len() == 5);
    assert("deny"@.len() == 4);
    assert(""@ =~= Seq::<char>::empty());
    assert("windows"@ =~= seq!['w', 'i', 'n', 'd', 'o', 'w', 's']);
    assert("macos"@ =~= seq!['m', 'a', 'c', 'o', 's']);
    assert("linux"@ =~= seq!['l', 'i', 'n', 'u', 'x']);
    assert("freebsd"@ =~= seq!['f', 'r', 'e', 'e', 'b', 's', 'd']);
    assert("u"@ =~= seq!['u']);
    assert("user"@ =~= seq!['u', 's', 'e', 'r']);
    assert("g"@ =~= seq!['g']);
    assert("group"@ =~= seq!['g', 'r', 'o', 'u', 'p']);
    assert("m"@ =~= seq!['m']);
    assert("mask"@ =~= seq!['m', 'a', 's', 'k']);
    assert("o"@ =~= seq!['o']);
    assert("other"@ =~= seq!['o', 't', 'h', 'e', 'r']);
    assert("allow"@ =~= seq!['a', 'l', 'l', 'o', 'w']);
    assert("deny"@ =~= seq!['d', 'e', 'n', 'y']);
}

proof fn lemma_platform_roundtrip(p: PlatformModel)
    requires
        match p {
            PlatformModel::Unknown(s) => platform_of_text(s) == PlatformModel::Unknown(s),
            _ => true,
        },
    ensures
        platform_of_text(platform_text(p)) == p,
{
    lemma_words();
}

proof fn lemma_owner_roundtrip(o: OwnerModel)
    requires
        match o {
            OwnerModel::User(i) => identifier_writable(i),
            OwnerModel::Group(i) => identifier_writable(i),
            _ => true,
        },
    ensures
        owner_of(owner_fields(o)[0], owner_fields(o)[1], owner_fields(o)[2]) == Ok::<OwnerModel, ParseAceErrorModel>(o),
{
    lemma_words();
    let f = owner_fields(o);
    match o {
        OwnerModel::Owner => {},
        OwnerModel::User(i) => {
            lemma_identifier_roundtrip(i);
            assert(f[1] == identifier_fields(i)[0]);
            assert(f[2] == identifier_fields(i)[1]);
        },
        OwnerModel::OwnerGroup => {},
        OwnerModel::Group(i) => {
            lemma_identifier_roundtrip(i);
            assert(f[1] == identifier_fields(i)[0]);
            assert(f[2] == identifier_fields(i)[1]);
        },
        OwnerModel::Mask => {},
        OwnerModel::Other => {},
    }
}

/// Writing an entry and reading the text back gives the same entry, for
/// every entry that can be written (see `ace_writable`).
pub proof fn ace_text_roundtrip(a: AceModel)
    requires
        ace_writable(a),
    ensures
        parse_ace(ace_text(a)) == Ok::<AceModel, ParseAceErrorModel>(a),
{
    lemma_words();
    let f = ace_fields(a);
    let flags16 = a.flags as u16;
    let fl = a.flags;
    assert((fl & 0x3fu8 == fl ==> (fl as u16) & 0x3fu16 == (fl as u16)) && ((fl as u16) as u8) == fl) by (bit_vector);
    self::table::lemma_table_mask(Table::LegacyFlag);
    self::table::lemma_table_mask(Table::Permission);
    let pm = a.permission;
    assert(pm & 0xffffu16 == pm) by (bit_vector);
    self::table::lemma_member_roundtrip(Table::LegacyFlag, flags16);
    self::table::lemma_member_roundtrip(Table::Permission, a.permission);
    // no field holds a colon
    self::table::lemma_table_names(Table::LegacyFlag);
    self::table::lemma_table_names(Table::Permission);
    self::table::lemma_names_upto(Table::LegacyFlag, flags16, 6);
    self::table::lemma_names_upto(Table::Permission, a.permission, 16);
    let fnames = self::table::names_of(Table::LegacyFlag, flags16);
    let pnames = self::table::names_of(Table::Permission, a.permission);
    assert forall|i: int| 0 <= i < fnames.len() implies !(#[trigger] fnames[i]).contains(':') by {
        let j = choose|j: nat| #![trigger self::table::entry_primary(Table::LegacyFlag, j)]
            j < 6 && flags16 & self::table::entry_mask(Table::LegacyFlag, j) != 0
            && fnames[i] == self::table::entry_primary(Table::LegacyFlag, j);
        assert(self::table::plain_word(self::table::entry_primary(Table::LegacyFlag, j)));
    }
    assert forall|i: int| 0 <= i < pnames.len() implies !(#[trigger] pnames[i]).contains(':') by {
        let j = choose|j: nat| #![trigger self::table::entry_primary(Table::Permission, j)]
            j < 16 && a.permission & self::table::entry_mask(Table::Permission, j) != 0
            && pnames[i] == self::table::entry_primary(Table::Permission, j);
        assert(self::table::plain_word(self::table::entry_primary(Table::Permission, j)));
    }
    crate::text::lemma_join_excludes(fnames, ',', ':');
    crate::text::lemma_join_excludes(pnames, ',', ':');
    match a.owner_type {
        OwnerModel::User(i) => { lemma_identifier_roundtrip(i); },
        OwnerModel::Group(i) => { lemma_identifier_roundtrip(i); },
        _ => {},
    }
    assert(f.len() == 7);
    assert forall|i: int| 0 <= i < f.len() implies !(#[trigger] f[i]).contains(':') by {
        if i == 0 {
            match a.platform {
                PlatformModel::Unknown(s) => {},
                _ => {},
            }
        }
    }
    crate::text::lemma_split_join(f, ':');
    let p = split_on(ace_text(a), ':');
    assert(p == f);
    lemma_owner_roundtrip(a.owner_type);
    lemma_platform_roundtrip(a.platform);
    assert(p[2] == owner_fields(a.owner_type)[0]);
    assert(p[3] == owner_fields(a.owner_type)[1]);
    assert(p[4] == owner_fields(a.owner_type)[2]);
}

/// The kind of an entry of the operating system's access-control list.
#[derive(Clone, Copy, Debug, PartialEq, Eq, Hash)]
pub enum AclEntryKind {
    User,
    Group,
    Mask,
    Other,
    Unknown,
}

/// An entry of the operating system's access-control list as Linux has
/// it: a kind and a name (empty for the owner, the owning group, the mask
/// and others), read, write and execute, the default flag, and allow.
#[derive(Clone, Debug, PartialEq, Eq, Hash)]
pub struct PlatformAclEntry {
    pub kind: AclEntryKind,
    pub name: String,
    pub read: bool,
    pub write: bool,
    pub execute: bool,
    pub default: bool,
    pub allow: bool,
}

/// The value of a platform entry: its name as characters.
pub ghost struct PlatformAclEntryModel {
    pub kind: AclEntryKind,
    pub name: Seq<char>,
    pub read: bool,
    pub write: bool,
    pub execute: bool,
    pub default: bool,
    pub allow: bool,
}

impl View for PlatformAclEntry {
    type V = PlatformAclEntryModel;

    open spec fn view(&self) -> PlatformAclEntryModel {
        PlatformAclEntryModel {
            kind: self.kind,
            name: self.name@,
            read: self.read,
            write: self.write,
            execute: self.execute,
            default: self.default,
            allow: self.allow,
        }
    }
}

/// The archive entry a platform entry stands for: the default flag, read,
/// write and execute, and the owner its kind and name give, on Linux.
pub open spec fn ace_of_platform_entry(e: PlatformAclEntryModel) -> AceModel {
    AceModel {
        platform: PlatformModel::Linux,
        flags: if e.default { 1 } else { 0 },
        owner_type: match e.kind {
            AclEntryKind::User => if e.name.len() == 0 { OwnerModel::Owner } else { OwnerModel::User(IdentifierModel::Name(e.name)) },
            AclEntryKind::Group => if e.name.len() == 0 { OwnerModel::OwnerGroup } else { OwnerModel::Group(IdentifierModel::Name(e.name)) },
            AclEntryKind::Mask => OwnerModel::Mask,
            _ => OwnerModel::Other,
        },
        allow: e.allow,
        permission: (if e.read { 1u16 } else { 0u16 }) | (if e.write { 2u16 } else { 0u16 }) | (if e.execute { 4u16 } else { 0u16 }),
    }
}

/// The name an identifier is given by on the platform: its name, or its id
/// in decimal.
pub open spec fn identifier_name(i: IdentifierModel) -> Seq<char> {
    match i {
        IdentifierModel::Name(n) => n,
        IdentifierModel::Id(v) => decimal(v as nat),
        IdentifierModel::Both(n, _) => n,
    }
}

/// The platform entry an archive entry stands for once converted for
/// Linux: the owner's kind and name, read, write, execute, and the default
/// flag.
pub open spec fn platform_entry_of_ace(a: AceModel) -> PlatformAclEntryModel {
    let c = ace_to_linux_spec(a);
    PlatformAclEntryModel {
        kind: match c.owner_type {
            OwnerModel::Owner => AclEntryKind::User,
            OwnerModel::User(_) => AclEntryKind::User,
            OwnerModel::OwnerGroup => AclEntryKind::Group,
            OwnerModel::Group(_) => AclEntryKind::Group,
            OwnerModel::Mask => AclEntryKind::Mask,
            OwnerModel::Other => AclEntryKind::Other,
        },
        name: match c.owner_type {
            OwnerModel::User(i) => identifier_name(i),
            OwnerModel::Group(i) => identifier_name(i),
            _ => Seq::empty(),
        },
        read: c.permission & 1 != 0,
        write: c.permission & 2 != 0,
        execute: c.permission & 4 != 0,
        default: c.flags & 1 != 0,
        allow: c.allow,
    }
}

impl Ace {
    /// The archive entry for an entry of the system's list; an entry of
    /// unknown kind has no owner to take.
    pub fn from_platform_entry(e: PlatformAclEntry) -> (r: Ace)
        requires
            e.kind != AclEntryKind::Unknown,
        ensures
            r@ == ace_of_platform_entry(e@),
    {
        let r: u16 = if e.read { 1 } else { 0 };
        let w: u16 = if e.write { 2 } else { 0 };
        let x: u16 = if e.execute { 4 } else { 0 };
        let flags = Flag::from_bits_retain(if e.default { 1 } else { 0 });
        let permission = Permission::from_bits_retain((r | w) | x);
        let owner_type = match e.kind {
            AclEntryKind::User => if e.name.as_str().is_empty() { OwnerType::Owner } else { OwnerType::User(Identifier::Name(e.name)) },
            AclEntryKind::Group => if e.name.as_str().is_empty() { OwnerType::OwnerGroup } else { OwnerType::Group(Identifier::Name(e.name)) },
            AclEntryKind::Mask => OwnerType::Mask,
            _ => OwnerType::Other,
        };
        Ace { platform: AcePlatform::current(), flags, owner_type, allow: e.allow, permission }
    }

    /// The entry of the system's list that this archive entry stands for,
    /// once converted for Linux.
    pub fn to_platform_entry(self) -> (r: PlatformAclEntry)
        ensures
            r@ == platform_entry_of_ace(self@),
    {
        let slf = ace_convert_platform(self, AcePlatform::current());
        let (kind, name) = match slf.owner_type {
            OwnerType::Owner => (AclEntryKind::User, String::new()),
            OwnerType::User(u) => (AclEntryKind::User, identifier_to_name(u)),
            OwnerType::OwnerGroup => (AclEntryKind::Group, String::new()),
            OwnerType::Group(g) => (AclEntryKind::Group, identifier_to_name(g)),
            OwnerType::Mask => (AclEntryKind::Mask, String::new()),
            OwnerType::Other => (AclEntryKind::Other, String::new()),
        };
        let p = slf.permission.bits;
        let f = slf.flags.bits;
        proof {
            assert((p & 1u16 == 1u16) == (p & 1u16 != 0u16) && (p & 2u16 == 2u16) == (p & 2u16
                != 0u16) && (p & 4u16 == 4u16) == (p & 4u16 != 0u16)) by (bit_vector);
            assert((f & 1u8 == 1u8) == (f & 1u8 != 0u8)) by (bit_vector);
        }
        PlatformAclEntry {
            kind,
            name,
            read: slf.permission.contains(Permission::read()),
            write: slf.permission.contains(Permission::write()),
            execute: slf.permission.contains(Permission::execute()),
            default: slf.flags.contains(Flag::default_flag()),
            allow: slf.allow,
        }
    }
}

/// The name an identifier is given by on the platform.
fn identifier_to_name(i: Identifier) -> (r: String)
    ensures
        r@ == identifier_name(i@),
{
    match i {
        Identifier::Name(n) => n,
        Identifier::Id(v) => {
            let d = u64_to_chars(v);
            string_from_chars(d.as_slice())
        },
        Identifier::Both(n, _) => n,
    }
}

/// Turning an entry of the system's list into an archive entry and back
/// gives the same entry, for every kind but the unknown one (a mask or
/// others entry has no name).
pub proof fn platform_entry_roundtrip(e: PlatformAclEntryModel)
    requires
        e.kind != AclEntryKind::Unknown,
        e.kind == AclEntryKind::Mask || e.kind == AclEntryKind::Other ==> e.name.len() == 0,
    ensures
        platform_entry_of_ace(ace_of_platform_entry(e)) == e,
{
    let a = ace_of_platform_entry(e);
    let r: u16 = if e.read { 1u16 } else { 0u16 };
    let w: u16 = if e.write { 2u16 } else { 0u16 };
    let x: u16 = if e.execute { 4u16 } else { 0u16 };
    let p = (r | w) | x;
    assert((r == 1u16 || r == 0u16) && (w == 2u16 || w == 0u16) && (x == 4u16 || x == 0u16) ==> (
        ((p & 1u16 != 0u16) == (r == 1u16)) && ((p & 2u16 != 0u16) == (w == 2u16)) && ((p & 4u16 != 0u16) == (x == 4u16))
    )) by (bit_vector)
        requires p == (r | w) | x;
    let fl: u8 = if e.default { 1u8 } else { 0u8 };
    assert((fl == 1u8 || fl == 0u8) ==> ((fl & 1u8 != 0u8) == (fl == 1u8))) by (bit_vector);
    assert(ace_to_linux_spec(a) == a);
    assert(a.permission == p);
    assert(a.flags == fl);
    if e.name.len() == 0 {
        assert(e.name =~= Seq::<char>::empty());
    }
    let b = platform_entry_of_ace(a);
    assert(b.read == e.read && b.write == e.write && b.execute == e.execute);
    assert(b.default == e.default);
    assert(b.kind == e.kind);
    assert(b.name =~= e.name);
}

} // verus!
