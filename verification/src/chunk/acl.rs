//! Access-control entries in the current text format of the archive chunk:
//! `platform:flags:kind:name:allow|deny:permissions`.
use vstd::prelude::*;
use crate::text::{
    chars_of, join_chars, join_with, piece_at, push_piece, split_chars, split_on,
    string_from_chars, word_is,
};
use super::table::{consumed_bits, names_list, names_text, parse_consuming, Table};
use super::{general_permission, platform_of_text, platform_text, to_general_permission};
use super::table::mask_upto;

pub use super::{AcePlatform, Flag, Permission, PlatformModel};

verus! {

/// Who an entry is about, by name or by numeric id written as text.
#[derive(Clone, Debug, PartialEq, Eq, PartialOrd, Ord, Hash)]
pub struct Identifier(pub String);

impl View for Identifier {
    type V = Seq<char>;

    open spec fn view(&self) -> Seq<char> {
        self.0@
    }
}

impl Identifier {
    /// How the identifier is written.
    pub fn to_string(&self) -> (r: String)
        ensures
            r@ == self@,
    {
        self.0.clone()
    }
}

/// Who an access-control entry applies to.
#[derive(Clone, Debug, PartialEq, Eq, PartialOrd, Ord, Hash)]
pub enum OwnerType {
    Owner,
    User(Identifier),
    OwnerGroup,
    Group(Identifier),
    Mask,
    Other,
}

/// The value of an owner type.
pub ghost enum OwnerModel {
    Owner,
    User(Seq<char>),
    OwnerGroup,
    Group(Seq<char>),
    Mask,
    Other,
}

impl View for OwnerType {
    type V = OwnerModel;

    open spec fn view(&self) -> OwnerModel {
        match self {
            OwnerType::Owner => OwnerModel::Owner,
            OwnerType::User(i) => OwnerModel::User(i@),
            OwnerType::OwnerGroup => OwnerModel::OwnerGroup,
            OwnerType::Group(i) => OwnerModel::Group(i@),
            OwnerType::Mask => OwnerModel::Mask,
            OwnerType::Other => OwnerModel::Other,
        }
    }
}

/// The kind field and the name field that an owner type is written as.
pub open spec fn owner_fields(o: OwnerModel) -> Seq<Seq<char>> {
    match o {
        OwnerModel::Owner => seq!["u"@, Seq::<char>::empty()],
        OwnerModel::User(i) => seq!["u"@, i],
        OwnerModel::OwnerGroup => seq!["g"@, Seq::<char>::empty()],
        OwnerModel::Group(i) => seq!["g"@, i],
        OwnerModel::Mask => seq!["m"@, Seq::<char>::empty()],
        OwnerModel::Other => seq!["o"@, Seq::<char>::empty()],
    }
}

impl OwnerType {
    /// The kind field and the name field of the owner type.
    pub fn fields(&self) -> (r: Vec<Vec<char>>)
        ensures
            r.deep_view() == owner_fields(self@),
    {
        let mut out: Vec<Vec<char>> = Vec::new();
        match self {
            OwnerType::Owner => {
                push_piece(&mut out, chars_of("u"));
                push_piece(&mut out, Vec::new());
            },
            OwnerType::User(i) => {
                push_piece(&mut out, chars_of("u"));
                push_piece(&mut out, chars_of(i.0.as_str()));
            },
            OwnerType::OwnerGroup => {
                push_piece(&mut out, chars_of("g"));
                push_piece(&mut out, Vec::new());
            },
            OwnerType::Group(i) => {
                push_piece(&mut out, chars_of("g"));
                push_piece(&mut out, chars_of(i.0.as_str()));
            },
            OwnerType::Mask => {
                push_piece(&mut out, chars_of("m"));
                push_piece(&mut out, Vec::new());
            },
            OwnerType::Other => {
                push_piece(&mut out, chars_of("o"));
                push_piece(&mut out, Vec::new());
            },
        }
        assert(out.deep_view() =~= owner_fields(self@));
        out
    }

    /// How the owner type is written: kind and name around a colon.
    pub fn to_string(&self) -> (r: String)
        ensures
            r@ == join_with(owner_fields(self@), ':'),
    {
        let f = self.fields();
        let t = join_chars(&f, ':');
        string_from_chars(t.as_slice())
    }
}


/// Why a text is not an access-control entry.
#[derive(Debug, PartialEq, Eq)]
pub enum ParseAceError {
    Encode(std::str::Utf8Error),
    NotEnoughElement,
    TooManyElement,
    UnexpectedAccessControl(String),
    UnexpectedOwnerType(String),
}

/// The value of a parse error, its text as characters.
pub ghost enum ParseAceErrorModel {
    Encode,
    NotEnoughElement,
    TooManyElement,
    UnexpectedAccessControl(Seq<char>),
    UnexpectedOwnerType(Seq<char>),
}

impl View for ParseAceError {
    type V = ParseAceErrorModel;

    open spec fn view(&self) -> ParseAceErrorModel {
        match self {
            ParseAceError::Encode(_) => ParseAceErrorModel::Encode,
            ParseAceError::NotEnoughElement => ParseAceErrorModel::NotEnoughElement,
            ParseAceError::TooManyElement => ParseAceErrorModel::TooManyElement,
            ParseAceError::UnexpectedAccessControl(s) => ParseAceErrorModel::UnexpectedAccessControl(s@),
            ParseAceError::UnexpectedOwnerType(s) => ParseAceErrorModel::UnexpectedOwnerType(s@),
        }
    }
}

/// Access-control entry.
#[derive(Clone, Debug, PartialEq, Eq, PartialOrd, Ord, Hash)]
pub struct Ace {
    pub platform: AcePlatform,
    pub flags: Flag,
    pub owner_type: OwnerType,
    pub allow: bool,
    pub permission: Permission,
}

/// The value of an access-control entry.
pub ghost struct AceModel {
    pub platform: PlatformModel,
    pub flags: u8,
    pub owner_type: OwnerModel,
    pub allow: bool,
    pub permission: u16,
}

impl View for Ace {
    type V = AceModel;

    open spec fn view(&self) -> AceModel {
        AceModel {
            platform: self.platform@,
            flags: self.flags.bits,
            owner_type: self.owner_type@,
            allow: self.allow,
            permission: self.permission.bits,
        }
    }
}

/// The six fields that an entry is written as.
pub open spec fn ace_fields(a: AceModel) -> Seq<Seq<char>> {
    seq![platform_text(a.platform), names_text(Table::Flag, a.flags as u16)]
        + owner_fields(a.owner_type)
        + seq![if a.allow { "allow"@ } else { "deny"@ }, names_text(Table::Permission, a.permission)]
}

/// How an entry is written: its fields between colons.
pub open spec fn ace_text(a: AceModel) -> Seq<char> {
    join_with(ace_fields(a), ':')
}

/// The owner type written as a kind field and a name field.
pub open spec fn owner_of(kind: Seq<char>, name: Seq<char>) -> Result<OwnerModel, ParseAceErrorModel> {
    if kind == "u"@ || kind == "user"@ {
        if name.len() == 0 { Ok(OwnerModel::Owner) } else { Ok(OwnerModel::User(name)) }
    } else if kind == "g"@ || kind == "group"@ {
        if name.len() == 0 { Ok(OwnerModel::OwnerGroup) } else { Ok(OwnerModel::Group(name)) }
    } else if kind == "m"@ || kind == "mask"@ {
        Ok(OwnerModel::Mask)
    } else if kind == "o"@ || kind == "other"@ {
        Ok(OwnerModel::Other)
    } else {
        Err(ParseAceErrorModel::UnexpectedOwnerType(kind))
    }
}

/// Reads an entry: the fields are taken in order, a missing field fails
/// where it is needed, and flags and permissions are each read with one
/// iterator over their list (see `consumed_bits`).
pub open spec fn parse_ace(s: Seq<char>) -> Result<AceModel, ParseAceErrorModel> {
    let p = split_on(s, ':');
    if p.len() < 4 {
        Err(ParseAceErrorModel::NotEnoughElement)
    } else {
        match owner_of(p[2], p[3]) {
            Err(e) => Err(e),
            Ok(owner) => if p.len() < 5 {
                Err(ParseAceErrorModel::NotEnoughElement)
            } else if p[4] != "allow"@ && p[4] != "deny"@ {
                Err(ParseAceErrorModel::UnexpectedAccessControl(p[4]))
            } else if p.len() < 6 {
                Err(ParseAceErrorModel::NotEnoughElement)
            } else if p.len() > 6 {
                Err(ParseAceErrorModel::TooManyElement)
            } else {
                Ok(AceModel {
                    platform: platform_of_text(p[0]),
                    flags: consumed_bits(split_on(p[1], ','), Table::Flag) as u8,
                    owner_type: owner,
                    allow: p[4] == "allow"@,
                    permission: consumed_bits(split_on(p[5], ','), Table::Permission),
                })
            },
        }
    }
}

/// Reads an owner type from its kind and name fields.
fn read_owner(kind: &[char], name: &[char]) -> (r: Result<OwnerType, ParseAceError>)
    ensures
        r matches Ok(o) ==> owner_of(kind@, name@) == Ok::<OwnerModel, ParseAceErrorModel>(o@),
        r matches Err(e) ==> owner_of(kind@, name@) == Err::<OwnerModel, ParseAceErrorModel>(e@),
{
    if word_is(kind, "u") || word_is(kind, "user") {
        if name.len() == 0 {
            Ok(OwnerType::Owner)
        } else {
            Ok(OwnerType::User(Identifier(string_from_chars(name))))
        }
    } else if word_is(kind, "g") || word_is(kind, "group") {
        if name.len() == 0 {
            Ok(OwnerType::OwnerGroup)
        } else {
            Ok(OwnerType::Group(Identifier(string_from_chars(name))))
        }
    } else if word_is(kind, "m") || word_is(kind, "mask") {
        Ok(OwnerType::Mask)
    } else if word_is(kind, "o") || word_is(kind, "other") {
        Ok(OwnerType::Other)
    } else {
        Err(ParseAceError::UnexpectedOwnerType(string_from_chars(kind)))
    }
}

impl Ace {
    /// Reads an entry from its text.
    pub fn from_str(s: &str) -> (r: Result<Ace, ParseAceError>)
        ensures
            r matches Ok(a) ==> parse_ace(s@) == Ok::<AceModel, ParseAceErrorModel>(a@),
            r matches Err(e) ==> parse_ace(s@) == Err::<AceModel, ParseAceErrorModel>(e@),
    {
        let cs = chars_of(s);
        let p = split_chars(cs.as_slice(), ':');
        assert(p.deep_view().len() == p.len());
        if p.len() < 4 {
            return Err(ParseAceError::NotEnoughElement);
        }
        let p0 = piece_at(&p, 0);
        let p1 = piece_at(&p, 1);
        let p2 = piece_at(&p, 2);
        let p3 = piece_at(&p, 3);
        let platform = AcePlatform::from_chars(p0.as_slice());
        let flag_items = split_chars(p1.as_slice(), ',');
        let flag_bits = parse_consuming(Table::Flag, &flag_items);
        let owner = match read_owner(p2.as_slice(), p3.as_slice()) {
            Ok(o) => o,
            Err(e) => return Err(e),
        };
        if p.len() < 5 {
            return Err(ParseAceError::NotEnoughElement);
        }
        let p4 = piece_at(&p, 4);
        let allow = if word_is(p4.as_slice(), "allow") {
            true
        } else if word_is(p4.as_slice(), "deny") {
            false
        } else {
            return Err(ParseAceError::UnexpectedAccessControl(string_from_chars(p4.as_slice())));
        };
        if p.len() < 6 {
            return Err(ParseAceError::NotEnoughElement);
        }
        let p5 = piece_at(&p, 5);
        let perm_items = split_chars(p5.as_slice(), ',');
        let perm_bits = parse_consuming(Table::Permission, &perm_items);
        if p.len() > 6 {
            return Err(ParseAceError::TooManyElement);
        }
        Ok(Ace {
            platform,
            flags: Flag::from_bits_retain(flag_bits as u8),
            owner_type: owner,
            allow,
            permission: Permission::from_bits_retain(perm_bits),
        })
    }

    /// Reads an entry from its text in UTF-8; bytes that are not UTF-8 are
    /// an encoding error.
    pub fn try_from_bytes(value: &[u8]) -> (r: Result<Ace, ParseAceError>)
        ensures
            !vstd::utf8::valid_utf8(value@) ==> r matches Err(ParseAceError::Encode(_)),
            vstd::utf8::valid_utf8(value@) ==> (r matches Ok(a) ==> parse_ace(vstd::utf8::decode_utf8(value@)) == Ok::<AceModel, ParseAceErrorModel>(a@)),
            vstd::utf8::valid_utf8(value@) ==> (r matches Err(e) ==> parse_ace(vstd::utf8::decode_utf8(value@)) == Err::<AceModel, ParseAceErrorModel>(e@)),
    {
        match crate::text::str_from_utf8(value) {
            Ok(body) => {
                proof {
                    vstd::utf8::encode_utf8_decode_utf8(body@);
                }
                Ace::from_str(body)
            },
            Err(e) => Err(ParseAceError::Encode(e)),
        }
    }

    /// The six fields of the entry's text.
    pub fn fields(&self) -> (r: Vec<Vec<char>>)
        ensures
            r.deep_view() == ace_fields(self@),
    {
        let mut out: Vec<Vec<char>> = Vec::new();
        push_piece(&mut out, self.platform.to_chars());
        let fl = names_list(Table::Flag, self.flags.bits as u16);
        push_piece(&mut out, join_chars(&fl, ','));
        let o = self.owner_type.fields();
        push_piece(&mut out, piece_at(&o, 0));
        push_piece(&mut out, piece_at(&o, 1));
        push_piece(&mut out, if self.allow { chars_of("allow") } else { chars_of("deny") });
        let pl = names_list(Table::Permission, self.permission.bits);
        push_piece(&mut out, join_chars(&pl, ','));
        assert(out.deep_view() =~= ace_fields(self@));
        out
    }

    /// How the entry is written.
    pub fn to_string(&self) -> (r: String)
        ensures
            r@ == ace_text(self@),
    {
        let f = self.fields();
        let t = join_chars(&f, ':');
        string_from_chars(t.as_slice())
    }

    /// The entry's text in UTF-8, as it is stored in the archive chunk.
    pub fn to_bytes(&self) -> (r: Vec<u8>)
        ensures
            r@ == vstd::utf8::encode_utf8(ace_text(self@)),
    {
        let s = self.to_string();
        vstd::slice::slice_to_vec(s.as_str().as_bytes())
    }
}


/// The union of a list of permission bits.
pub open spec fn row_bits(to: Seq<u16>) -> u16
    decreases to.len(),
{
    if to.len() == 0 {
        0
    } else {
        row_bits(to.drop_last()) | to.last()
    }
}

/// Permissions mapped through a table: for each row whose source
/// permission is held, all of the row's permissions.
pub open spec fn mapped_bits(src: u16, rows: Seq<(Seq<u16>, u16)>) -> u16
    decreases rows.len(),
{
    if rows.len() == 0 {
        0
    } else {
        mapped_bits(src, rows.drop_last()) | if src & rows.last().1 == rows.last().1 {
            row_bits(rows.last().0)
        } else {
            0
        }
    }
}

/// The rows of a mapping table as values.
pub open spec fn table_view(t: Seq<(Vec<u16>, u16)>) -> Seq<(Seq<u16>, u16)> {
    Seq::new(t.len(), |i: int| (t[i].0@, t[i].1))
}

/// How generic permissions map to Windows permissions.
pub open spec fn windows_rows() -> Seq<(Seq<u16>, u16)> {
    seq![
        (seq![0x1u16, 0x4000, 0x40, 0x100, 0x400, 0x40, 0x2000], 0x1u16),
        (seq![0x2u16, 0x8000, 0x80, 0x200, 0x800, 0x10, 0x8, 0x40, 0x2000], 0x2u16),
        (seq![0x4u16, 0x40, 0x2000], 0x4u16),
    ]
}

/// How generic permissions map to macOS permissions.
pub open spec fn macos_rows() -> Seq<(Seq<u16>, u16)> {
    seq![
        (seq![0x1u16, 0x4000, 0x40, 0x100, 0x400], 0x1u16),
        (seq![0x2u16, 0x8000, 0x80, 0x200, 0x800, 0x10, 0x8], 0x2u16),
        (seq![0x4u16], 0x4u16),
    ]
}

/// The table from generic to Windows permissions.
pub fn generic_to_windows_table() -> (r: Vec<(Vec<u16>, u16)>)
    ensures
        table_view(r@) == windows_rows(),
{
    let a = vec![0x1u16, 0x4000, 0x40, 0x100, 0x400, 0x40, 0x2000];
    let b = vec![0x2u16, 0x8000, 0x80, 0x200, 0x800, 0x10, 0x8, 0x40, 0x2000];
    let c = vec![0x4u16, 0x40, 0x2000];
    assert(a@ =~= windows_rows()[0].0);
    assert(b@ =~= windows_rows()[1].0);
    assert(c@ =~= windows_rows()[2].0);
    let r = vec![(a, 0x1u16), (b, 0x2u16), (c, 0x4u16)];
    assert(table_view(r@) =~= windows_rows());
    r
}

/// The table from generic to macOS permissions.
pub fn generic_to_macos_table() -> (r: Vec<(Vec<u16>, u16)>)
    ensures
        table_view(r@) == macos_rows(),
{
    let a = vec![0x1u16, 0x4000, 0x40, 0x100, 0x400];
    let b = vec![0x2u16, 0x8000, 0x80, 0x200, 0x800, 0x10, 0x8];
    let c = vec![0x4u16];
    assert(a@ =~= macos_rows()[0].0);
    assert(b@ =~= macos_rows()[1].0);
    assert(c@ =~= macos_rows()[2].0);
    let r = vec![(a, 0x1u16), (b, 0x2u16), (c, 0x4u16)];
    assert(table_view(r@) =~= macos_rows());
    r
}

/// Maps permissions through a table: every row whose source permission is
/// held contributes all of its permissions.
pub fn mapping_permission(src_permission: Permission, table: &Vec<(Vec<u16>, u16)>) -> (r: Permission)
    ensures
        r.bits == mapped_bits(src_permission.bits, table_view(table@)),
{
    let mut permission = Permission::empty();
    let mut i: usize = 0;
    while i < table.len()
        invariant
            i <= table.len(),
            permission.bits == mapped_bits(src_permission.bits, table_view(table@).take(i as int)),
        decreases table.len() - i,
    {
        let from = table[i].1;
        let ghost before = permission.bits;
        assert(table_view(table@).take(i + 1).drop_last() =~= table_view(table@).take(i as int));
        if src_permission.contains(Permission::from_bits_retain(from)) {
            let to = &table[i].0;
            let mut j: usize = 0;
            proof {
                let ghost x = before;
                assert(x | 0u16 == x) by (bit_vector);
                assert(to@.take(0) =~= Seq::<u16>::empty());
            }
            while j < to.len()
                invariant
                    j <= to.len(),
                    permission.bits == before | row_bits(to@.take(j as int)),
                decreases to.len() - j,
            {
                let ghost mid = permission.bits;
                assert(to@.take(j + 1).drop_last() =~= to@.take(j as int));
                permission.insert(Permission::from_bits_retain(to[j]));
                let ghost x = before;
                let ghost y = row_bits(to@.take(j as int));
                let ghost z = to@[j as int];
                assert((x | y) | z == x | (y | z)) by (bit_vector);
                j = j + 1;
            }
            assert(to@.take(to.len() as int) =~= to@);
        } else {
            let ghost x = before;
            assert(x | 0u16 == x) by (bit_vector);
        }
        i = i + 1;
    }
    assert(table_view(table@).take(table.len() as int) =~= table_view(table@));
    permission
}

/// An entry with another platform, flags and permission.
pub open spec fn ace_with(a: AceModel, platform: PlatformModel, flags: u8, permission: u16) -> AceModel {
    AceModel { platform, flags, owner_type: a.owner_type, allow: a.allow, permission }
}

/// An entry in generic form.
pub open spec fn ace_to_generic_spec(a: AceModel) -> AceModel {
    match a.platform {
        PlatformModel::General => a,
        PlatformModel::Windows => ace_with(a, PlatformModel::General, 0, general_permission(a.permission)),
        PlatformModel::MacOs => ace_with(a, PlatformModel::General, a.flags & 0x3e, general_permission(a.permission)),
        PlatformModel::Linux => ace_with(a, PlatformModel::Linux, a.flags & 1, general_permission(a.permission)),
        PlatformModel::FreeBSD => ace_with(a, PlatformModel::General, a.flags, general_permission(a.permission)),
        PlatformModel::Unknown(_) => ace_with(a, PlatformModel::General, 0, general_permission(a.permission)),
    }
}

/// An entry moved to a platform through a mapping table.
pub open spec fn ace_mapped_to(a: AceModel, target: PlatformModel, rows: Seq<(Seq<u16>, u16)>) -> AceModel {
    if a.platform == target {
        a
    } else {
        let g = ace_to_generic_spec(a);
        ace_with(g, target, g.flags, mapped_bits(g.permission, rows))
    }
}

/// An entry moved to a platform in its generic form.
pub open spec fn ace_marked_as(a: AceModel, target: PlatformModel) -> AceModel {
    if a.platform == target {
        a
    } else {
        let g = ace_to_generic_spec(a);
        ace_with(g, target, g.flags, g.permission)
    }
}

/// An entry converted for a platform.
pub open spec fn ace_convert_spec(a: AceModel, to: PlatformModel) -> AceModel {
    match to {
        PlatformModel::General => ace_to_generic_spec(a),
        PlatformModel::Unknown(_) => ace_to_generic_spec(a),
        PlatformModel::Windows => ace_mapped_to(a, PlatformModel::Windows, windows_rows()),
        PlatformModel::MacOs => ace_mapped_to(a, PlatformModel::MacOs, macos_rows()),
        PlatformModel::Linux => ace_marked_as(a, PlatformModel::Linux),
        PlatformModel::FreeBSD => ace_marked_as(a, PlatformModel::FreeBSD),
    }
}

/// Converts an entry for the platform that this build runs on.
pub fn ace_convert_current_platform(src: Ace) -> (r: Ace)
    ensures
        r@ == ace_convert_spec(src@, PlatformModel::Linux),
{
    ace_convert_platform(src, AcePlatform::current())
}

/// Converts an entry for the platform `to`.
pub fn ace_convert_platform(src: Ace, to: AcePlatform) -> (r: Ace)
    ensures
        r@ == ace_convert_spec(src@, to@),
{
    match &to {
        AcePlatform::General | AcePlatform::Unknown(_) => ace_to_generic(src),
        AcePlatform::Windows => ace_to_windows(src),
        AcePlatform::MacOs => ace_to_macos(src),
        AcePlatform::Linux => ace_to_linux(src),
        AcePlatform::FreeBSD => ace_to_freebsd(src),
    }
}

/// Converts an entry to generic form.
pub fn ace_to_generic(src: Ace) -> (r: Ace)
    ensures
        r@ == ace_to_generic_spec(src@),
{
    match src.platform {
        AcePlatform::General => src,
        AcePlatform::Windows => Ace {
            platform: AcePlatform::General,
            flags: Flag::empty(),
            owner_type: src.owner_type,
            allow: src.allow,
            permission: to_general_permission(src.permission),
        },
        AcePlatform::MacOs => Ace {
            platform: AcePlatform::General,
            flags: Flag::from_bits_retain(src.flags.bits & 0x3e),
            owner_type: src.owner_type,
            allow: src.allow,
            permission: to_general_permission(src.permission),
        },
        AcePlatform::Linux => Ace {
            platform: AcePlatform::Linux,
            flags: Flag::from_bits_retain(src.flags.bits & 1),
            owner_type: src.owner_type,
            allow: src.allow,
            permission: to_general_permission(src.permission),
        },
        AcePlatform::FreeBSD => Ace {
            platform: AcePlatform::General,
            flags: src.flags,
            owner_type: src.owner_type,
            allow: src.allow,
            permission: to_general_permission(src.permission),
        },
        AcePlatform::Unknown(_) => Ace {
            platform: AcePlatform::General,
            flags: Flag::empty(),
            owner_type: src.owner_type,
            allow: src.allow,
            permission: to_general_permission(src.permission),
        },
    }
}

/// Converts an entry for Windows.
pub fn ace_to_windows(src: Ace) -> (r: Ace)
    ensures
        r@ == ace_mapped_to(src@, PlatformModel::Windows, windows_rows()),
{
    match src.platform {
        AcePlatform::Windows => src,
        _ => {
            let g = ace_to_generic(src);
            let table = generic_to_windows_table();
            Ace {
                platform: AcePlatform::Windows,
                flags: g.flags,
                owner_type: g.owner_type,
                allow: g.allow,
                permission: mapping_permission(g.permission, &table),
            }
        },
    }
}

/// Converts an entry for Linux.
pub fn ace_to_linux(src: Ace) -> (r: Ace)
    ensures
        r@ == ace_marked_as(src@, PlatformModel::Linux),
{
    match src.platform {
        AcePlatform::Linux => src,
        _ => {
            let mut g = ace_to_generic(src);
            g.platform = AcePlatform::Linux;
            g
        },
    }
}

/// Converts an entry for macOS.
pub fn ace_to_macos(src: Ace) -> (r: Ace)
    ensures
        r@ == ace_mapped_to(src@, PlatformModel::MacOs, macos_rows()),
{
    match src.platform {
        AcePlatform::MacOs => src,
        _ => {
            let g = ace_to_generic(src);
            let table = generic_to_macos_table();
            Ace {
                platform: AcePlatform::MacOs,
                flags: g.flags,
                owner_type: g.owner_type,
                allow: g.allow,
                permission: mapping_permission(g.permission, &table),
            }
        },
    }
}

/// Converts an entry for FreeBSD.
pub fn ace_to_freebsd(src: Ace) -> (r: Ace)
    ensures
        r@ == ace_marked_as(src@, PlatformModel::FreeBSD),
{
    match src.platform {
        AcePlatform::FreeBSD => src,
        _ => {
            let mut g = ace_to_generic(src);
            g.platform = AcePlatform::FreeBSD;
            g
        },
    }
}

/// Whether an entry's platform and owner can be written and read back: an
/// unknown platform's name has no colon and is no known platform's name,
/// and a user or group name is not empty and has no colon.
pub open spec fn ace_writable(a: AceModel) -> bool {
    &&& match a.platform {
        PlatformModel::Unknown(s) => !s.contains(':') && platform_of_text(s) == PlatformModel::Unknown(s),
        _ => true,
    }
    &&& match a.owner_type {
        OwnerModel::User(n) => n.len() > 0 && !n.contains(':'),
        OwnerModel::Group(n) => n.len() > 0 && !n.contains(':'),
        _ => true,
    }
}

/// Writing an entry and reading the text back gives the same entry, where
/// its flags are the first `mf` flags of the name table and its
/// permissions the first `mp` permissions: the reader looks for each name
/// after the one found before it, and a name that it does not find uses
/// up the rest of the list.
pub proof fn ace_text_roundtrip(a: AceModel, mf: nat, mp: nat)
    requires
        ace_writable(a),
        mf <= 6,
        mp <= 16,
        a.flags as u16 == mask_upto(Table::Flag, mf),
        a.permission == mask_upto(Table::Permission, mp),
    ensures
        parse_ace(ace_text(a)) == Ok::<AceModel, ParseAceErrorModel>(a),
{
    super::lemma_words();
    super::table::lemma_consumed_roundtrip(Table::Flag, mf);
    super::table::lemma_consumed_roundtrip(Table::Permission, mp);
    super::table::lemma_names_text_no_colon(Table::Flag, a.flags as u16);
    super::table::lemma_names_text_no_colon(Table::Permission, a.permission);
    let fl = a.flags;
    assert(((fl as u16) as u8) == fl) by (bit_vector);
    let f = ace_fields(a);
    assert(f.len() == 6);
    assert forall|i: int| 0 <= i < f.len() implies !(#[trigger] f[i]).contains(':') by {
        if i == 0 {
            match a.platform {
                PlatformModel::Unknown(s) => {},
                _ => {},
            }
        }
    }
    crate::text::lemma_split_join(f, ':');
    let p = split_on(ace_text(a), ':');
    assert(p == f);
    super::lemma_platform_roundtrip(a.platform);
    assert(owner_of(p[2], p[3]) == Ok::<OwnerModel, ParseAceErrorModel>(a.owner_type));
}

/// The bit values of the permission tables, folded as `row_bits` folds
/// them, and how a table of three rows maps permissions.
proof fn lemma_table_bit_values(p: u16, r0: u16, r1: u16, r2: u16)
    by (bit_vector)
    ensures
        ((((0u16 | 0x1u16) | 0x4000u16) | 0x40u16) | 0x100u16) | 0x400u16 == 0x4541u16,
        ((((((0u16 | 0x2u16) | 0x8000u16) | 0x80u16) | 0x200u16) | 0x800u16) | 0x10u16) | 0x8u16 == 0x8a9au16,
        0u16 | 0x4u16 == 0x4u16,
        ((((((0u16 | 0x1u16) | 0x4000u16) | 0x40u16) | 0x100u16) | 0x400u16) | 0x40u16) | 0x2000u16 == 0x6541u16,
        ((((((((0u16 | 0x2u16) | 0x8000u16) | 0x80u16) | 0x200u16) | 0x800u16) | 0x10u16) | 0x8u16) | 0x40u16)
            | 0x2000u16 == 0xaadau16,
        ((0u16 | 0x4u16) | 0x40u16) | 0x2000u16 == 0x2044u16,
        ((0u16 | (if p & 1u16 == 1u16 { r0 } else { 0u16 })) | (if p & 2u16 == 2u16 { r1 } else { 0u16 })) | (if p
            & 4u16 == 4u16 { r2 } else { 0u16 }) == (if p & 1u16 != 0 { r0 } else { 0u16 }) | (if p & 2u16 != 0 {
            r1
        } else { 0u16 }) | (if p & 4u16 != 0 { r2 } else { 0u16 }),
{
}

/// `mapped_bits` over a table of three rows, each with one source bit.
proof fn lemma_mapped_three(p: u16, rows: Seq<(Seq<u16>, u16)>)
    requires
        rows.len() == 3,
        rows[0].1 == 1u16,
        rows[1].1 == 2u16,
        rows[2].1 == 4u16,
    ensures
        mapped_bits(p, rows) == ((0u16 | (if p & 1u16 == 1u16 { row_bits(rows[0].0) } else { 0u16 })) | (if p & 2u16
            == 2u16 { row_bits(rows[1].0) } else { 0u16 })) | (if p & 4u16 == 4u16 { row_bits(rows[2].0) } else { 0u16 }),
{
    reveal_with_fuel(mapped_bits, 4);
    assert(rows.drop_last().drop_last().drop_last() =~= Seq::<(Seq<u16>, u16)>::empty());
    assert(rows.drop_last().drop_last().last() == rows[0]);
    assert(rows.drop_last().last() == rows[1]);
}

/// Converting a generic entry for macOS gives, for each generic permission
/// it holds, every macOS permission of that kind: read (`0x1`) gives read,
/// read_data, readattr, readextattr and readsecurity (`0x4541`); write
/// (`0x2`) gives write, write_data, writeattr, writeextattr,
/// writesecurity, append and delete (`0x8a9a`); execute (`0x4`) gives
/// execute. Its flags, owner and kind stay.
pub proof fn generic_to_macos_permissions(a: AceModel)
    requires
        a.platform == PlatformModel::General,
    ensures
        ace_convert_spec(a, PlatformModel::MacOs).platform == PlatformModel::MacOs,
        ace_convert_spec(a, PlatformModel::MacOs).flags == a.flags,
        ace_convert_spec(a, PlatformModel::MacOs).owner_type == a.owner_type,
        ace_convert_spec(a, PlatformModel::MacOs).allow == a.allow,
        ace_convert_spec(a, PlatformModel::MacOs).permission == (if a.permission & 0x1 != 0 { 0x4541u16 } else { 0u16 })
            | (if a.permission & 0x2 != 0 { 0x8a9au16 } else { 0u16 }) | (if a.permission & 0x4 != 0 { 0x4u16 } else {
            0u16
        }),
{
    reveal_with_fuel(row_bits, 10);
    let rows = macos_rows();
    lemma_mapped_three(a.permission, rows);
    assert(rows[0].0.drop_last().drop_last().drop_last().drop_last().drop_last() =~= Seq::<u16>::empty());
    assert(rows[0].0.drop_last().drop_last().drop_last().drop_last() =~= seq![0x1u16]);
    assert(rows[0].0.drop_last().drop_last().drop_last() =~= seq![0x1u16, 0x4000]);
    assert(rows[0].0.drop_last().drop_last() =~= seq![0x1u16, 0x4000, 0x40]);
    assert(rows[0].0.drop_last() =~= seq![0x1u16, 0x4000, 0x40, 0x100]);
    assert(row_bits(rows[0].0) == ((((0u16 | 0x1u16) | 0x4000u16) | 0x40u16) | 0x100u16) | 0x400u16);
    let w = rows[1].0;
    assert(w.drop_last().drop_last().drop_last().drop_last().drop_last().drop_last().drop_last() =~= Seq::<u16>::empty());
    assert(w.drop_last().drop_last().drop_last().drop_last().drop_last().drop_last() =~= seq![0x2u16]);
    assert(w.drop_last().drop_last().drop_last().drop_last().drop_last() =~= seq![0x2u16, 0x8000]);
    assert(w.drop_last().drop_last().drop_last().drop_last() =~= seq![0x2u16, 0x8000, 0x80]);
    assert(w.drop_last().drop_last().drop_last() =~= seq![0x2u16, 0x8000, 0x80, 0x200]);
    assert(w.drop_last().drop_last() =~= seq![0x2u16, 0x8000, 0x80, 0x200, 0x800]);
    assert(w.drop_last() =~= seq![0x2u16, 0x8000, 0x80, 0x200, 0x800, 0x10]);
    assert(row_bits(w) == ((((((0u16 | 0x2u16) | 0x8000u16) | 0x80u16) | 0x200u16) | 0x800u16) | 0x10u16) | 0x8u16);
    assert(rows[2].0.drop_last() =~= Seq::<u16>::empty());
    assert(row_bits(rows[2].0) == 0u16 | 0x4u16);
    lemma_table_bit_values(a.permission, 0x4541u16, 0x8a9au16, 0x4u16);
}

/// Converting a generic entry for Windows gives, for each generic
/// permission it holds, every Windows permission of that kind: read
/// (`0x1`) gives `0x6541`, write (`0x2`) gives `0xaada`, execute (`0x4`)
/// gives `0x2044` (each with synchronize and, for execute, read attributes).
/// Its flags, owner and kind stay.
pub proof fn generic_to_windows_permissions(a: AceModel)
    requires
        a.platform == PlatformModel::General,
    ensures
        ace_convert_spec(a, PlatformModel::Windows).platform == PlatformModel::Windows,
        ace_convert_spec(a, PlatformModel::Windows).flags == a.flags,
        ace_convert_spec(a, PlatformModel::Windows).owner_type == a.owner_type,
        ace_convert_spec(a, PlatformModel::Windows).allow == a.allow,
        ace_convert_spec(a, PlatformModel::Windows).permission == (if a.permission & 0x1 != 0 { 0x6541u16 } else {
            0u16
        }) | (if a.permission & 0x2 != 0 { 0xaadau16 } else { 0u16 }) | (if a.permission & 0x4 != 0 { 0x2044u16 } else {
            0u16
        }),
{
    reveal_with_fuel(row_bits, 10);
    let rows = windows_rows();
    lemma_mapped_three(a.permission, rows);
    let r = rows[0].0;
    assert(r.drop_last().drop_last().drop_last().drop_last().drop_last().drop_last().drop_last() =~= Seq::<u16>::empty());
    assert(r.drop_last().drop_last().drop_last().drop_last().drop_last().drop_last() =~= seq![0x1u16]);
    assert(r.drop_last().drop_last().drop_last().drop_last().drop_last() =~= seq![0x1u16, 0x4000]);
    assert(r.drop_last().drop_last().drop_last().drop_last() =~= seq![0x1u16, 0x4000, 0x40]);
    assert(r.drop_last().drop_last().drop_last() =~= seq![0x1u16, 0x4000, 0x40, 0x100]);
    assert(r.drop_last().drop_last() =~= seq![0x1u16, 0x4000, 0x40, 0x100, 0x400]);
    assert(r.drop_last() =~= seq![0x1u16, 0x4000, 0x40, 0x100, 0x400, 0x40]);
    assert(row_bits(r) == ((((((0u16 | 0x1u16) | 0x4000u16) | 0x40u16) | 0x100u16) | 0x400u16) | 0x40u16) | 0x2000u16);
    let w = rows[1].0;
    assert(w.drop_last().drop_last().drop_last().drop_last().drop_last().drop_last().drop_last().drop_last().drop_last()
        =~= Seq::<u16>::empty());
    assert(w.drop_last().drop_last().drop_last().drop_last().drop_last().drop_last().drop_last().drop_last()
        =~= seq![0x2u16]);
    assert(w.drop_last().drop_last().drop_last().drop_last().drop_last().drop_last().drop_last() =~= seq![0x2u16, 0x8000]);
    assert(w.drop_last().drop_last().drop_last().drop_last().drop_last().drop_last() =~= seq![0x2u16, 0x8000, 0x80]);
    assert(w.drop_last().drop_last().drop_last().drop_last().drop_last() =~= seq![0x2u16, 0x8000, 0x80, 0x200]);
    assert(w.drop_last().drop_last().drop_last().drop_last() =~= seq![0x2u16, 0x8000, 0x80, 0x200, 0x800]);
    assert(w.drop_last().drop_last().drop_last() =~= seq![0x2u16, 0x8000, 0x80, 0x200, 0x800, 0x10]);
    assert(w.drop_last().drop_last() =~= seq![0x2u16, 0x8000, 0x80, 0x200, 0x800, 0x10, 0x8]);
    assert(w.drop_last() =~= seq![0x2u16, 0x8000, 0x80, 0x200, 0x800, 0x10, 0x8, 0x40]);
    assert(row_bits(w) == ((((((((0u16 | 0x2u16) | 0x8000u16) | 0x80u16) | 0x200u16) | 0x800u16) | 0x10u16) | 0x8u16)
        | 0x40u16) | 0x2000u16);
    let x = rows[2].0;
    assert(x.drop_last().drop_last().drop_last() =~= Seq::<u16>::empty());
    assert(x.drop_last().drop_last() =~= seq![0x4u16]);
    assert(x.drop_last() =~= seq![0x4u16, 0x40]);
    assert(row_bits(x) == ((0u16 | 0x4u16) | 0x40u16) | 0x2000u16);
    lemma_table_bit_values(a.permission, 0x6541u16, 0xaadau16, 0x2044u16);
}

/// Converting a platform entry to generic form keeps of its permissions
/// only what they amount to generically: read (`0x1`) where any of the
/// read permissions `0x4541` is held, write (`0x2`) where any of the write
/// permissions `0x8a9a` is, execute (`0x4`) where execute is.
pub proof fn platform_to_generic_permissions(a: AceModel)
    requires
        a.platform != PlatformModel::General,
    ensures
        ace_convert_spec(a, PlatformModel::General).permission == (if a.permission & 0x4541 != 0 { 1u16 } else { 0u16 })
            | (if a.permission & 0x8a9a != 0 { 2u16 } else { 0u16 }) | (if a.permission & 0x4 != 0 { 4u16 } else {
            0u16
        }),
{
}

} // verus!
