//! File modes given as three octal digits or as symbolic clauses
//! (`u=rw,go-x`, `g=u`), and how they change an existing mode.
use vstd::prelude::*;
use crate::text::{
    chars_of, int_error_message, int_error_to_string, parse_unsigned, parse_unsigned_spec,
    push_all, push_str, split_chars, split_on, string_from_chars, u64_to_chars, decimal,
};

verus! {

/// The permission classes a clause applies to: user (1), group (2) and
/// other (4).
#[derive(Clone, Copy, Debug, PartialEq, Eq, PartialOrd, Ord, Hash)]
pub struct Who {
    pub bits: u8,
}

/// Places the three bits `n` at the positions of the classes in `who`.
pub open spec fn spread_bits(who: u8, n: u16) -> u16 {
    (if who & 1 != 0 { n << 6u16 } else { 0u16 }) | (if who & 2 != 0 { n << 3u16 } else { 0u16 }) | (if who
        & 4 != 0 { n } else { 0u16 })
}

/// The three bits of each class in `who`, taken from `mode` and combined.
pub open spec fn gather_bits(who: u8, mode: u16) -> u16 {
    (if who & 1 != 0 { (mode >> 6u16) & 7 } else { 0u16 }) | (if who & 2 != 0 { (mode >> 3u16) & 7 } else { 0u16 })
        | (if who & 4 != 0 { mode & 7 } else { 0u16 })
}

impl Who {
    /// The user class.
    pub fn user() -> (r: Who)
        ensures
            r.bits == 1,
    {
        Who { bits: 1 }
    }

    /// The group class.
    pub fn group() -> (r: Who)
        ensures
            r.bits == 2,
    {
        Who { bits: 2 }
    }

    /// The other class.
    pub fn other() -> (r: Who)
        ensures
            r.bits == 4,
    {
        Who { bits: 4 }
    }

    /// All three classes.
    pub fn all() -> (r: Who)
        ensures
            r.bits == 7,
    {
        Who { bits: 7 }
    }

    /// No class.
    pub fn empty() -> (r: Who)
        ensures
            r.bits == 0,
    {
        Who { bits: 0 }
    }

    /// The classes of both.
    pub fn union(self, other: Who) -> (r: Who)
        ensures
            r.bits == self.bits | other.bits,
    {
        Who { bits: self.bits | other.bits }
    }

    /// Expands a three-bit permission value to the positions of these
    /// classes.
    pub fn to_permission_bits(self, n: u16) -> (r: u16)
        ensures
            r == spread_bits(self.bits, n),
    {
        let mut result: u16 = 0;
        if self.bits & 1 != 0 {
            result = result | (n << 6u16);
        }
        if self.bits & 2 != 0 {
            result = result | (n << 3u16);
        }
        if self.bits & 4 != 0 {
            result = result | n;
        }
        proof {
            let w = self.bits;
            let a: u16 = if w & 1 != 0 { n << 6u16 } else { 0u16 };
            let b: u16 = if w & 2 != 0 { n << 3u16 } else { 0u16 };
            let c: u16 = if w & 4 != 0 { n } else { 0u16 };
            assert(0u16 | a == a && a | 0u16 == a && (a | b) | 0u16 == a | b) by (bit_vector);
        }
        result
    }

    /// Extracts the three-bit permission values of these classes from
    /// `mode`, combined.
    pub fn extract_bits(self, mode: u16) -> (r: u16)
        ensures
            r == gather_bits(self.bits, mode),
            r <= 7,
    {
        let mut result: u16 = 0;
        if self.bits & 1 != 0 {
            result = result | ((mode >> 6u16) & 7);
        }
        if self.bits & 2 != 0 {
            result = result | ((mode >> 3u16) & 7);
        }
        if self.bits & 4 != 0 {
            result = result | (mode & 7);
        }
        proof {
            let w = self.bits;
            let a: u16 = if w & 1 != 0 { (mode >> 6u16) & 7 } else { 0u16 };
            let b: u16 = if w & 2 != 0 { (mode >> 3u16) & 7 } else { 0u16 };
            let c: u16 = if w & 4 != 0 { mode & 7 } else { 0u16 };
            assert(0u16 | a == a && a | 0u16 == a && (a | b) | 0u16 == a | b && (a <= 7 && b <= 7 && c <= 7 ==> (a
                | b) | c <= 7) && (mode >> 6u16) & 7 <= 7 && (mode >> 3u16) & 7 <= 7 && mode & 7 <= 7) by (bit_vector);
        }
        result
    }
}

/// Permission bits: literal bits (r=4, w=2, x=1) and classes whose bits
/// are copied from the mode being changed.
#[derive(Clone, Copy, Debug, PartialEq, Eq, PartialOrd, Ord, Hash)]
pub struct PermBits {
    pub literal: u8,
    pub copy_from: Who,
}

/// The bits that permission bits stand for against `mode`.
pub open spec fn resolved_bits(p: PermBits, mode: u16) -> u16 {
    (p.literal as u16) | gather_bits(p.copy_from.bits, mode)
}

impl PermBits {
    /// No bits.
    pub fn default() -> (r: PermBits)
        ensures
            r.literal == 0,
            r.copy_from.bits == 0,
    {
        PermBits { literal: 0, copy_from: Who::empty() }
    }

    /// Literal bits.
    pub fn from(literal: u8) -> (r: PermBits)
        ensures
            r.literal == literal,
            r.copy_from.bits == 0,
    {
        PermBits { literal, copy_from: Who::empty() }
    }

    /// Bits copied from the given classes.
    pub fn copy_from(source: Who) -> (r: PermBits)
        ensures
            r.literal == 0,
            r.copy_from == source,
    {
        PermBits { literal: 0, copy_from: source }
    }

    /// The bits these stand for against the current mode.
    pub fn resolve(self, mode: u16) -> (r: u16)
        ensures
            r == resolved_bits(self, mode),
    {
        (self.literal as u16) | self.copy_from.extract_bits(mode)
    }

    /// The bits of both.
    pub fn bitor(self, rhs: PermBits) -> (r: PermBits)
        ensures
            r.literal == self.literal | rhs.literal,
            r.copy_from.bits == self.copy_from.bits | rhs.copy_from.bits,
    {
        PermBits { literal: self.literal | rhs.literal, copy_from: self.copy_from.union(rhs.copy_from) }
    }
}

/// One action of a clause: set, add or remove bits.
#[derive(Clone, Copy, Debug, PartialEq, Eq, PartialOrd, Ord, Hash)]
pub enum Action {
    Equal(PermBits),
    Plus(PermBits),
    Minus(PermBits),
}

/// A clause: the classes it applies to and its actions, in order.
#[derive(Clone, Debug, PartialEq, Eq, PartialOrd, Ord, Hash)]
pub struct ModeClause {
    pub who: Who,
    pub actions: Vec<Action>,
}

/// A mode: three octal digits, or symbolic clauses.
#[derive(Clone, Debug, PartialEq, Eq, PartialOrd, Ord, Hash)]
pub enum Mode {
    Numeric(u16),
    Clause(Vec<ModeClause>),
}

/// The value of a clause.
pub ghost struct ClauseModel {
    pub who: u8,
    pub actions: Seq<Action>,
}

/// The value of a mode.
pub ghost enum ModeModel {
    Numeric(u16),
    Clause(Seq<ClauseModel>),
}

impl View for ModeClause {
    type V = ClauseModel;

    open spec fn view(&self) -> ClauseModel {
        ClauseModel { who: self.who.bits, actions: self.actions@ }
    }
}

impl View for Mode {
    type V = ModeModel;

    open spec fn view(&self) -> ModeModel {
        match self {
            Mode::Numeric(n) => ModeModel::Numeric(*n),
            Mode::Clause(cs) => ModeModel::Clause(Seq::new(cs@.len(), |i: int| cs@[i]@)),
        }
    }
}

/// The mode after one action of a clause for the classes `who`.
pub open spec fn apply_action(mode: u16, who: u8, a: Action) -> u16 {
    match a {
        Action::Equal(b) => (mode & !spread_bits(who, 7)) | spread_bits(who, resolved_bits(b, mode)),
        Action::Plus(b) => mode | spread_bits(who, resolved_bits(b, mode)),
        Action::Minus(b) => mode & !spread_bits(who, resolved_bits(b, mode)),
    }
}

/// The mode after a clause's actions, left to right.
pub open spec fn apply_actions(mode: u16, who: u8, actions: Seq<Action>) -> u16
    decreases actions.len(),
{
    if actions.len() == 0 {
        mode
    } else {
        apply_action(apply_actions(mode, who, actions.drop_last()), who, actions.last())
    }
}

/// The mode after the clauses, left to right.
pub open spec fn apply_clauses(mode: u16, clauses: Seq<ClauseModel>) -> u16
    decreases clauses.len(),
{
    if clauses.len() == 0 {
        mode
    } else {
        let c = clauses.last();
        apply_actions(apply_clauses(mode, clauses.drop_last()), c.who, c.actions)
    }
}

/// The mode that `m` makes of `mode`.
pub open spec fn mode_applied(m: ModeModel, mode: u16) -> u16 {
    match m {
        ModeModel::Numeric(n) => n,
        ModeModel::Clause(cs) => apply_clauses(mode, cs),
    }
}

impl Mode {
    /// The mode after this one is applied to `mode`: a numeric mode
    /// replaces it, clauses change it left to right, each action seeing the
    /// mode left by the one before.
    pub fn apply_to(&self, mode: u16) -> (r: u16)
        ensures
            r == mode_applied(self@, mode),
    {
        match self {
            Mode::Numeric(n) => *n,
            Mode::Clause(clauses) => {
                let mut mode = mode;
                let ghost start = mode;
                let ghost cv = self@->Clause_0;
                let mut i: usize = 0;
                while i < clauses.len()
                    invariant
                        i <= clauses.len(),
                        cv == Seq::new(clauses@.len(), |k: int| clauses@[k]@),
                        mode == apply_clauses(start, cv.take(i as int)),
                    decreases clauses.len() - i,
                {
                    assert(cv.take(i + 1).drop_last() =~= cv.take(i as int));
                    let who = clauses[i].who;
                    let actions = &clauses[i].actions;
                    let ghost before = mode;
                    let mut j: usize = 0;
                    while j < actions.len()
                        invariant
                            j <= actions.len(),
                            mode == apply_actions(before, who.bits, actions@.take(j as int)),
                        decreases actions.len() - j,
                    {
                        assert(actions@.take(j + 1).drop_last() =~= actions@.take(j as int));
                        match actions[j] {
                            Action::Equal(bits) => {
                                let m = bits.resolve(mode);
                                let mask = who.to_permission_bits(7);
                                mode = (mode & !mask) | who.to_permission_bits(m);
                            },
                            Action::Plus(bits) => {
                                let m = bits.resolve(mode);
                                mode = mode | who.to_permission_bits(m);
                            },
                            Action::Minus(bits) => {
                                let m = bits.resolve(mode);
                                mode = mode & !who.to_permission_bits(m);
                            },
                        }
                        j = j + 1;
                    }
                    assert(actions@.take(actions.len() as int) =~= actions@);
                    i = i + 1;
                }
                assert(cv.take(clauses.len() as int) =~= cv);
                mode
            },
        }
    }
}

/// Whether `c` names classes at the start of a clause.
pub open spec fn is_who_char(c: char) -> bool {
    c == 'a' || c == 'u' || c == 'g' || c == 'o'
}

/// The classes that `c` names.
pub open spec fn who_bits_of(c: char) -> u8 {
    if c == 'a' { 7 } else if c == 'u' { 1 } else if c == 'g' { 2 } else { 4 }
}

/// Whether `c` is an action's operator.
pub open spec fn is_op_char(c: char) -> bool {
    c == '+' || c == '-' || c == '='
}

/// Whether `c` names permission bits after an operator.
pub open spec fn is_perm_char(c: char) -> bool {
    c == 'r' || c == 'w' || c == 'x' || c == 'u' || c == 'g' || c == 'o'
}

/// The literal bits and copied classes that `c` stands for.
pub open spec fn perm_of(c: char) -> (u8, u8) {
    if c == 'r' { (4, 0) } else if c == 'w' { (2, 0) } else if c == 'x' { (1, 0) }
    else if c == 'u' { (0, 1) } else if c == 'g' { (0, 2) } else { (0, 4) }
}

/// The permission bits of a run of permission characters, combined.
pub open spec fn perms_of(p: Seq<char>) -> PermBits
    decreases p.len(),
{
    if p.len() == 0 {
        PermBits { literal: 0, copy_from: Who { bits: 0 } }
    } else {
        let b = perms_of(p.drop_last());
        let (l, c) = perm_of(p.last());
        PermBits { literal: b.literal | l, copy_from: Who { bits: b.copy_from.bits | c } }
    }
}

/// The classes a run of class characters names, combined.
pub open spec fn who_of(p: Seq<char>) -> u8
    decreases p.len(),
{
    if p.len() == 0 { 0 } else { who_of(p.drop_last()) | who_bits_of(p.last()) }
}

/// The length of the run of class characters at the start of `q`.
pub open spec fn who_run(q: Seq<char>) -> nat
    decreases q.len(),
{
    if q.len() > 0 && is_who_char(q[0]) { 1 + who_run(q.skip(1)) } else { 0 }
}

/// The length of the run of permission characters at the start of `q`.
pub open spec fn perm_run(q: Seq<char>) -> nat
    decreases q.len(),
{
    if q.len() > 0 && is_perm_char(q[0]) { 1 + perm_run(q.skip(1)) } else { 0 }
}

/// The action an operator makes with the given bits.
pub open spec fn action_of(op: char, b: PermBits) -> Action {
    if op == '+' { Action::Plus(b) } else if op == '-' { Action::Minus(b) } else { Action::Equal(b) }
}

/// Reads one or more actions that fill `q`: an operator and the longest
/// run of permission characters after it, again and again.
pub open spec fn parse_actions(q: Seq<char>) -> Option<Seq<Action>>
    decreases q.len(),
{
    if q.len() == 0 || !is_op_char(q[0]) {
        None
    } else {
        let n = perm_run(q.skip(1));
        proof {
            lemma_perm_run(q.skip(1));
        }
        let a = action_of(q[0], perms_of(q.subrange(1, 1 + n as int)));
        let rest = q.skip(1 + n as int);
        if rest.len() == 0 {
            Some(seq![a])
        } else {
            match parse_actions(rest) {
                Some(t) => Some(seq![a] + t),
                None => None,
            }
        }
    }
}

/// Reads a clause that fills `p`: class characters (none means all
/// classes), then actions.
pub open spec fn parse_clause(p: Seq<char>) -> Option<ClauseModel> {
    let n = who_run(p);
    match parse_actions(p.skip(n as int)) {
        Some(acts) => Some(ClauseModel { who: if n == 0 { 7 } else { who_of(p.take(n as int)) }, actions: acts }),
        None => None,
    }
}

/// Reads every piece as a clause.
pub open spec fn parse_clauses(pieces: Seq<Seq<char>>) -> Option<Seq<ClauseModel>>
    decreases pieces.len(),
{
    if pieces.len() == 0 {
        Some(Seq::empty())
    } else {
        match (parse_clauses(pieces.drop_last()), parse_clause(pieces.last())) {
            (Some(cs), Some(c)) => Some(cs.push(c)),
            _ => None,
        }
    }
}

/// Whether every character is an ASCII digit.
pub open spec fn all_digits(s: Seq<char>) -> bool {
    forall|i: int| 0 <= i < s.len() ==> '0' <= #[trigger] s[i] <= '9'
}

/// What a mode argument reads as: only digits must be exactly three octal
/// digits; anything else must be clauses separated by single commas.
pub open spec fn parse_mode(s: Seq<char>) -> Result<ModeModel, Seq<char>> {
    if all_digits(s) {
        if s.len() == 3 {
            match parse_unsigned_spec(s, 8, u16::MAX as nat) {
                Ok(v) => Ok(ModeModel::Numeric(v as u16)),
                Err(e) => Err(int_error_message(e)),
            }
        } else {
            Err("Invalid mode length: "@ + decimal(s.len()))
        }
    } else {
        match parse_clauses(split_on(s, ',')) {
            Some(cs) => Ok(ModeModel::Clause(cs)),
            None => Err("Invalid file mode: "@ + s),
        }
    }
}

/// The length of the run of characters at `i` that satisfy the class
/// test (`perms` false) or the permission test (`perms` true).
fn run_at(p: &[char], i: usize, perms: bool) -> (n: usize)
    requires
        i <= p.len(),
    ensures
        i + n <= p.len(),
        perms ==> n == perm_run(p@.skip(i as int)),
        !perms ==> n == who_run(p@.skip(i as int)),
    decreases p.len() - i,
{
    if i < p.len() {
        let c = p[i];
        let hit = if perms {
            c == 'r' || c == 'w' || c == 'x' || c == 'u' || c == 'g' || c == 'o'
        } else {
            c == 'a' || c == 'u' || c == 'g' || c == 'o'
        };
        if hit {
            assert(p@.skip(i as int).skip(1) =~= p@.skip(i + 1));
            1 + run_at(p, i + 1, perms)
        } else {
            0
        }
    } else {
        0
    }
}

/// The permission bits of the characters `i..j`.
fn perms_at(p: &[char], i: usize, j: usize) -> (r: PermBits)
    requires
        i <= j <= p.len(),
        forall|k: int| i <= k < j ==> is_perm_char(#[trigger] p@[k]),
    ensures
        r == perms_of(p@.subrange(i as int, j as int)),
    decreases j - i,
{
    if i == j {
        assert(p@.subrange(i as int, j as int) =~= Seq::<char>::empty());
        PermBits::default()
    } else {
        let b = perms_at(p, i, j - 1);
        assert(p@.subrange(i as int, j as int).drop_last() =~= p@.subrange(i as int, j - 1));
        let c = p[j - 1];
        let (l, w): (u8, u8) = if c == 'r' {
            (4, 0)
        } else if c == 'w' {
            (2, 0)
        } else if c == 'x' {
            (1, 0)
        } else if c == 'u' {
            (0, 1)
        } else if c == 'g' {
            (0, 2)
        } else {
            (0, 4)
        };
        PermBits { literal: b.literal | l, copy_from: Who { bits: b.copy_from.bits | w } }
    }
}

/// The classes named by the characters `i..j`.
fn who_at(p: &[char], i: usize, j: usize) -> (r: u8)
    requires
        i <= j <= p.len(),
    ensures
        r == who_of(p@.subrange(i as int, j as int)),
    decreases j - i,
{
    if i == j {
        assert(p@.subrange(i as int, j as int) =~= Seq::<char>::empty());
        0
    } else {
        let b = who_at(p, i, j - 1);
        assert(p@.subrange(i as int, j as int).drop_last() =~= p@.subrange(i as int, j - 1));
        let c = p[j - 1];
        let w: u8 = if c == 'a' { 7 } else if c == 'u' { 1 } else if c == 'g' { 2 } else { 4 };
        b | w
    }
}

/// A run of permission characters holds only permission characters.
pub proof fn lemma_perm_run(q: Seq<char>)
    ensures
        perm_run(q) <= q.len(),
        forall|k: int| 0 <= k < perm_run(q) ==> is_perm_char(#[trigger] q[k]),
    decreases q.len(),
{
    if q.len() > 0 && is_perm_char(q[0]) {
        lemma_perm_run(q.skip(1));
        assert forall|k: int| 0 <= k < perm_run(q) implies is_perm_char(#[trigger] q[k]) by {
            if k > 0 {
                assert(q.skip(1)[k - 1] == q[k]);
            }
        }
    }
}

/// A run of class characters is no longer than the text.
proof fn lemma_who_run(q: Seq<char>)
    ensures
        who_run(q) <= q.len(),
    decreases q.len(),
{
    if q.len() > 0 && is_who_char(q[0]) {
        lemma_who_run(q.skip(1));
    }
}

/// Reads actions that fill `p` from `i` on.
fn parse_actions_at(p: &[char], i: usize) -> (r: Option<Vec<Action>>)
    requires
        i <= p.len(),
    ensures
        r matches Some(v) ==> parse_actions(p@.skip(i as int)) == Some(v@),
        r is None ==> parse_actions(p@.skip(i as int)) is None,
    decreases p.len() - i,
{
    let ghost q = p@.skip(i as int);
    if i >= p.len() || !(p[i] == '+' || p[i] == '-' || p[i] == '=') {
        return None;
    }
    let op = p[i];
    let n = run_at(p, i + 1, true);
    assert(q.skip(1) =~= p@.skip(i + 1));
    proof {
        lemma_perm_run(p@.skip(i + 1));
        assert forall|k: int| i + 1 <= k < i + 1 + n implies is_perm_char(#[trigger] p@[k]) by {
            assert(p@.skip(i + 1)[k - i - 1] == p@[k]);
        }
    }
    let b = perms_at(p, i + 1, i + 1 + n);
    assert(q.subrange(1, 1 + n as int) =~= p@.subrange(i + 1, i + 1 + n));
    let a = if op == '+' {
        Action::Plus(b)
    } else if op == '-' {
        Action::Minus(b)
    } else {
        Action::Equal(b)
    };
    let next = i + 1 + n;
    assert(q.skip(1 + n as int) =~= p@.skip(next as int));
    if next == p.len() {
        let v = vec![a];
        assert(v@ =~= seq![a]);
        Some(v)
    } else {
        match parse_actions_at(p, next) {
            Some(rest) => {
                let mut v = vec![a];
                let mut rest = rest;
                let ghost rv = rest@;
                v.append(&mut rest);
                assert(v@ =~= seq![a] + rv);
                Some(v)
            },
            None => None,
        }
    }
}

/// Reads a clause that fills `p`.
fn parse_clause_chars(p: &[char]) -> (r: Option<ModeClause>)
    ensures
        r matches Some(c) ==> parse_clause(p@) == Some(c@),
        r is None ==> parse_clause(p@) is None,
{
    let n = run_at(p, 0, false);
    assert(p@.skip(0) =~= p@);
    proof { lemma_who_run(p@); }
    let who = if n == 0 {
        7u8
    } else {
        let w = who_at(p, 0, n);
        assert(p@.subrange(0, n as int) =~= p@.take(n as int));
        w
    };
    match parse_actions_at(p, n) {
        Some(actions) => Some(ModeClause { who: Who { bits: who }, actions }),
        None => None,
    }
}

impl Mode {
    /// Reads a mode: exactly three octal digits, or clauses separated by
    /// commas such as `u=rw,go-x` or `g=u`; anything else is an error with
    /// its message.
    pub fn from_str(s: &str) -> (r: Result<Mode, String>)
        ensures
            r matches Ok(m) ==> parse_mode(s@) == Ok::<ModeModel, Seq<char>>(m@),
            r matches Err(e) ==> parse_mode(s@) == Err::<ModeModel, Seq<char>>(e@),
    {
        let cs = chars_of(s);
        let mut digits = true;
        let mut i: usize = 0;
        while i < cs.len()
            invariant
                i <= cs.len(),
                digits == forall|k: int| 0 <= k < i ==> '0' <= #[trigger] cs@[k] <= '9',
            decreases cs.len() - i,
        {
            if !('0' <= cs[i] && cs[i] <= '9') {
                digits = false;
            }
            i = i + 1;
        }
        if digits {
            if cs.len() == 3 {
                match parse_unsigned(cs.as_slice(), 8, 0xffff) {
                    Ok(v) => {
                        proof {
                            crate::text::lemma_parse_digits_bound(s@, 8, u16::MAX as nat);
                            crate::text::lemma_parse_digits_bound(s@.drop_first(), 8, u16::MAX as nat);
                        }
                        Ok(Mode::Numeric(v as u16))
                    },
                    Err(e) => Err(int_error_to_string(e)),
                }
            } else {
                let mut out: Vec<char> = Vec::new();
                push_str(&mut out, "Invalid mode length: ");
                let d = u64_to_chars(cs.len() as u64);
                push_all(&mut out, d.as_slice());
                Err(string_from_chars(out.as_slice()))
            }
        } else {
            let pieces = split_chars(cs.as_slice(), ',');
            let mut clauses: Vec<ModeClause> = Vec::new();
            let mut k: usize = 0;
            while k < pieces.len()
                invariant
                    k <= pieces.len(),
                    cs@ == s@,
                    !all_digits(s@),
                    pieces.deep_view() == split_on(s@, ','),
                    parse_clauses(pieces.deep_view().take(k as int)) == Some(
                        Seq::new(clauses@.len(), |j: int| clauses@[j]@),
                    ),
                decreases pieces.len() - k,
            {
                assert(pieces.deep_view().take(k + 1).drop_last() =~= pieces.deep_view().take(k as int));
                assert(pieces.deep_view()[k as int] == pieces@[k as int]@);
                match parse_clause_chars(pieces[k].as_slice()) {
                    Some(c) => {
                        let ghost before = Seq::new(clauses@.len(), |j: int| clauses@[j]@);
                        let ghost cv = c@;
                        clauses.push(c);
                        assert(Seq::new(clauses@.len(), |j: int| clauses@[j]@) =~= before.push(cv));
                    },
                    None => {
                        proof { lemma_clauses_prefix_none(pieces.deep_view(), (k + 1) as nat); }
                        let mut out: Vec<char> = Vec::new();
                        push_str(&mut out, "Invalid file mode: ");
                        push_all(&mut out, cs.as_slice());
                        return Err(string_from_chars(out.as_slice()));
                    },
                }
                k = k + 1;
            }
            assert(pieces.deep_view().take(pieces.len() as int) =~= pieces.deep_view());
            Ok(Mode::Clause(clauses))
        }
    }
}

/// Once a piece fails, the whole list fails.
proof fn lemma_clauses_prefix_none(pieces: Seq<Seq<char>>, n: nat)
    requires
        n <= pieces.len(),
        parse_clauses(pieces.take(n as int)) is None,
    ensures
        parse_clauses(pieces) is None,
    decreases pieces.len(),
{
    if pieces.len() == n {
        assert(pieces.take(n as int) =~= pieces);
    } else {
        assert(pieces.drop_last().take(n as int) =~= pieces.take(n as int));
        lemma_clauses_prefix_none(pieces.drop_last(), n);
    }
}

/// Clauses apply left to right: applying a list of clauses is applying its
/// first part, then the rest to what that gave.
pub proof fn clauses_apply_left_to_right(mode: u16, first: Seq<ClauseModel>, rest: Seq<ClauseModel>)
    ensures
        apply_clauses(mode, first + rest) == apply_clauses(apply_clauses(mode, first), rest),
    decreases rest.len(),
{
    if rest.len() == 0 {
        assert(first + rest =~= first);
    } else {
        assert((first + rest).drop_last() =~= first + rest.drop_last());
        assert((first + rest).last() == rest.last());
        clauses_apply_left_to_right(mode, first, rest.drop_last());
    }
}

/// The permission bits of an action.
pub open spec fn action_bits(a: Action) -> PermBits {
    match a {
        Action::Equal(b) => b,
        Action::Plus(b) => b,
        Action::Minus(b) => b,
    }
}

/// Whether every action of the clauses has literal bits within `rwx`, as
/// every parsed mode has.
pub open spec fn literals_within(cs: Seq<ClauseModel>) -> bool {
    forall|i: int, j: int|
        0 <= i < cs.len() && 0 <= j < cs[i].actions.len() ==> #[trigger] action_bits(cs[i].actions[j]).literal <= 7
}

/// The bits of every class that some clause names.
pub open spec fn clauses_mask(cs: Seq<ClauseModel>) -> u16
    decreases cs.len(),
{
    if cs.len() == 0 {
        0
    } else {
        clauses_mask(cs.drop_last()) | spread_bits(cs.last().who, 7)
    }
}

/// Facts on bits: an action with bits within `rwx` leaves every bit
/// outside its classes; keeping the bits outside two masks keeps those
/// outside both together; the class bits lie below the special bits.
proof fn lemma_outside_bits(who: u8, n: u16, l: u8, w: u8, x: u16, y: u16, z: u16, m0: u16)
    by (bit_vector)
    ensures
        n <= 7 ==> ((x & !spread_bits(who, 7)) | spread_bits(who, n)) & !spread_bits(who, 7) == x & !spread_bits(
            who,
            7,
        ),
        n <= 7 ==> (x | spread_bits(who, n)) & !spread_bits(who, 7) == x & !spread_bits(who, 7),
        n <= 7 ==> (x & !spread_bits(who, n)) & !spread_bits(who, 7) == x & !spread_bits(who, 7),
        l <= 7 ==> ((l as u16) | gather_bits(w, x)) <= 7,
        (z & !spread_bits(who, 7) == y & !spread_bits(who, 7) && y & !m0 == x & !m0) ==> z & !(m0 | spread_bits(
            who,
            7,
        )) == x & !(m0 | spread_bits(who, 7)),
        m0 == 0 ==> m0 & 0o7000 == 0 && x & !m0 == x,
        m0 & 0o7000 == 0 ==> (m0 | spread_bits(who, 7)) & 0o7000 == 0,
        (m0 & 0o7000 == 0 && z & !m0 == x & !m0) ==> z & 0o7000 == x & 0o7000,
{
}

/// A clause's actions leave every bit outside its classes as it was.
proof fn lemma_actions_keep_outside(mode: u16, who: u8, actions: Seq<Action>)
    requires
        forall|j: int| 0 <= j < actions.len() ==> #[trigger] action_bits(actions[j]).literal <= 7,
    ensures
        apply_actions(mode, who, actions) & !spread_bits(who, 7) == mode & !spread_bits(who, 7),
    decreases actions.len(),
{
    if actions.len() > 0 {
        let init = actions.drop_last();
        assert forall|j: int| 0 <= j < init.len() implies #[trigger] action_bits(init[j]).literal <= 7 by {
            assert(init[j] == actions[j]);
        }
        lemma_actions_keep_outside(mode, who, init);
        let y = apply_actions(mode, who, init);
        let b = action_bits(actions.last());
        assert(b.literal <= 7);
        lemma_outside_bits(who, 0, b.literal, b.copy_from.bits, y, y, y, 0);
        lemma_outside_bits(who, resolved_bits(b, y), 0, 0, y, y, y, 0);
    }
}

/// Symbolic clauses change only the bits of the classes they name: every
/// other permission bit, and the set-user-id, set-group-id and sticky bits,
/// stay as they were.
pub proof fn unnamed_bits_kept(cs: Seq<ClauseModel>, x: u16)
    requires
        literals_within(cs),
    ensures
        mode_applied(ModeModel::Clause(cs), x) & !clauses_mask(cs) == x & !clauses_mask(cs),
        mode_applied(ModeModel::Clause(cs), x) & 0o7000 == x & 0o7000,
        clauses_mask(cs) & 0o7000 == 0,
    decreases cs.len(),
{
    if cs.len() == 0 {
        lemma_outside_bits(0, 0, 0, 0, x, x, x, 0);
    } else {
        let init = cs.drop_last();
        assert(literals_within(init)) by {
            assert forall|i: int, j: int| 0 <= i < init.len() && 0 <= j < init[i].actions.len() implies #[trigger] action_bits(
                init[i].actions[j],
            ).literal <= 7 by {
                assert(init[i] == cs[i]);
            }
        }
        unnamed_bits_kept(init, x);
        let c = cs.last();
        assert forall|j: int| 0 <= j < c.actions.len() implies #[trigger] action_bits(c.actions[j]).literal <= 7 by {
            assert(action_bits(cs[cs.len() - 1].actions[j]).literal <= 7);
        }
        let y = apply_clauses(x, init);
        let z = apply_actions(y, c.who, c.actions);
        lemma_actions_keep_outside(y, c.who, c.actions);
        let m = clauses_mask(cs);
        assert(m == clauses_mask(init) | spread_bits(c.who, 7));
        lemma_outside_bits(c.who, 0, 0, 0, x, y, z, clauses_mask(init));
        assert(z & !m == x & !m);
        assert(m & 0o7000 == 0);
        lemma_outside_bits(c.who, 0, 0, 0, x, y, z, m);
        assert(z & 0o7000 == x & 0o7000);
        assert(mode_applied(ModeModel::Clause(cs), x) == z);
    }
}

/// A numeric mode replaces the existing mode whatever it is.
pub proof fn numeric_mode_replaces(n: u16, a: u16, b: u16)
    ensures
        mode_applied(ModeModel::Numeric(n), a) == mode_applied(ModeModel::Numeric(n), b),
{
}

/// The kinds of archive entries, as far as their default mode goes.
#[derive(Clone, Copy, Debug, PartialEq, Eq)]
pub enum DataKind {
    File,
    Directory,
    SymbolicLink,
    HardLink,
    /// A kind that has no default mode.
    Other,
}

/// The mode that an entry without a stored one is taken to have:
/// `0o755` for a directory, `0o644` for a file or a link, none otherwise.
pub fn default_permission_mode(kind: DataKind) -> (r: u16)
    ensures
        r == match kind {
            DataKind::Directory => 0o755u16,
            DataKind::File | DataKind::SymbolicLink | DataKind::HardLink => 0o644u16,
            DataKind::Other => 0u16,
        },
{
    match kind {
        DataKind::Directory => 0o755,
        DataKind::File | DataKind::SymbolicLink | DataKind::HardLink => 0o644,
        DataKind::Other => 0,
    }
}

/// The mode an entry gets from `mode`: applied to the stored mode, or,
/// where none is stored, to the default of the entry's kind.
pub fn entry_mode(mode: &Mode, stored: Option<u16>, kind: DataKind) -> (r: u16)
    ensures
        r == mode_applied(
            mode@,
            match stored {
                Some(m) => m,
                None => match kind {
                    DataKind::Directory => 0o755u16,
                    DataKind::File | DataKind::SymbolicLink | DataKind::HardLink => 0o644u16,
                    DataKind::Other => 0u16,
                },
            },
        ),
{
    let current = match stored {
        Some(m) => m,
        None => default_permission_mode(kind),
    };
    mode.apply_to(current)
}

} // verus!
