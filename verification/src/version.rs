//! Protocol versions and their order: semantic versions
//! (`MAJOR.MINOR.PATCH[-PRERELEASE][+BUILD]`) ranked by semantic-version
//! precedence.
//!
//! Precedence compares the major, minor and patch numbers in turn; with
//! those equal, a pre-release ranks below the release, and two pre-releases
//! compare their dot-separated identifiers left to right: numeric
//! identifiers by value, others by ASCII order of their characters, a numeric
//! identifier below an alphanumeric one, and a longer list above its own
//! prefix. Build metadata does not count. A text that is not a semantic
//! version (or holds a number beyond 64 bits) has no precedence and is
//! compared with nothing.

use vstd::prelude::*;

verus! {

/// The dot-separated fields of a text, in order; a text without dots is one
/// field.
pub open spec fn fields(s: Seq<char>) -> Seq<Seq<char>>
    decreases s.len(),
{
    if s.len() == 0 {
        seq![Seq::<char>::empty()]
    } else {
        let f = fields(s.drop_last());
        if s.last() == '.' {
            f.push(Seq::<char>::empty())
        } else {
            f.update(f.len() - 1, f.last().push(s.last()))
        }
    }
}

/// The position of the first `c` in `s`, or the length of `s` when there is none.
pub open spec fn first_pos(s: Seq<char>, c: char) -> nat
    decreases s.len(),
{
    if s.len() == 0 {
        0
    } else if s[0] == c {
        0
    } else {
        1 + first_pos(s.drop_first(), c)
    }
}

/// `c` is an ASCII decimal digit.
pub open spec fn is_digit(c: char) -> bool {
    '0' <= c && c <= '9'
}

/// `c` may stand in an identifier: `[0-9A-Za-z-]`.
pub open spec fn is_ident_char(c: char) -> bool {
    is_digit(c) || ('A' <= c && c <= 'Z') || ('a' <= c && c <= 'z') || c == '-'
}

/// Every character of `d` is a digit.
pub open spec fn all_digits(d: Seq<char>) -> bool {
    forall|i: int| 0 <= i < d.len() ==> is_digit(#[trigger] d[i])
}

/// The value of a string of decimal digits.
pub open spec fn decimal(d: Seq<char>) -> nat
    decreases d.len(),
{
    if d.len() == 0 {
        0
    } else {
        decimal(d.drop_last()) * 10 + (d.last() as int - '0' as int) as nat
    }
}

/// A numeric identifier: digits without a leading zero (but `0` itself),
/// whose value fits in 64 bits.
pub open spec fn numeral(d: Seq<char>) -> bool {
    &&& d.len() > 0
    &&& all_digits(d)
    &&& (d.len() == 1 || d[0] != '0')
    &&& decimal(d) <= u64::MAX
}

/// An identifier: a non-empty string of `[0-9A-Za-z-]`.
pub open spec fn ident(d: Seq<char>) -> bool {
    d.len() > 0 && forall|i: int| 0 <= i < d.len() ==> is_ident_char(#[trigger] d[i])
}

/// A pre-release identifier: an identifier that, when all digits, is a numeral.
pub open spec fn pre_ident(d: Seq<char>) -> bool {
    ident(d) && (all_digits(d) ==> numeral(d))
}

/// One pre-release identifier, as precedence sees it.
pub enum Identifier {
    Numeric(u64),
    Alphanumeric(Seq<char>),
}

/// The identifier that the text `d` is.
pub open spec fn identifier_of(d: Seq<char>) -> Identifier {
    if all_digits(d) {
        Identifier::Numeric(decimal(d) as u64)
    } else {
        Identifier::Alphanumeric(d)
    }
}

/// What of a semantic version counts for precedence.
pub struct Precedence {
    pub major: u64,
    pub minor: u64,
    pub patch: u64,
    /// The pre-release identifiers; empty for a release.
    pub pre: Seq<Identifier>,
}

/// The text before the build metadata (before the first `+`).
pub open spec fn main_part(v: Seq<char>) -> Seq<char> {
    v.take(first_pos(v, '+') as int)
}

/// The build metadata, when there is a `+`, holds only identifiers.
pub open spec fn build_ok(v: Seq<char>) -> bool {
    let p = first_pos(v, '+');
    p == v.len() || forall|i: int|
        0 <= i < fields(v.skip(p as int + 1)).len() ==> ident(#[trigger] fields(v.skip(p as int + 1))[i])
}

/// The fields of the version core (before the first `-` of the main part).
pub open spec fn core_fields(v: Seq<char>) -> Seq<Seq<char>> {
    fields(main_part(v).take(first_pos(main_part(v), '-') as int))
}

/// The fields of the pre-release (after the first `-` of the main part);
/// none for a release.
pub open spec fn pre_fields(v: Seq<char>) -> Seq<Seq<char>> {
    let m = main_part(v);
    let q = first_pos(m, '-');
    if q < m.len() {
        fields(m.skip(q as int + 1))
    } else {
        Seq::<Seq<char>>::empty()
    }
}

/// The precedence of `v`, or `None` when `v` is not a semantic version.
pub open spec fn semver_of(v: Seq<char>) -> Option<Precedence> {
    let core = core_fields(v);
    let pre = pre_fields(v);
    if build_ok(v) && core.len() == 3 && numeral(core[0]) && numeral(core[1]) && numeral(core[2])
        && forall|i: int| 0 <= i < pre.len() ==> pre_ident(#[trigger] pre[i]) {
        Some(
            Precedence {
                major: decimal(core[0]) as u64,
                minor: decimal(core[1]) as u64,
                patch: decimal(core[2]) as u64,
                pre: pre.map_values(|d: Seq<char>| identifier_of(d)),
            },
        )
    } else {
        None
    }
}

/// ASCII order of texts: the first differing character decides, and a text
/// is below its own extensions.
pub open spec fn text_lt(s: Seq<char>, t: Seq<char>) -> bool
    decreases s.len(),
{
    if t.len() == 0 {
        false
    } else if s.len() == 0 {
        true
    } else if (s[0] as int) < (t[0] as int) {
        true
    } else if (s[0] as int) > (t[0] as int) {
        false
    } else {
        text_lt(s.drop_first(), t.drop_first())
    }
}

/// The order of pre-release identifiers.
pub open spec fn ident_lt(a: Identifier, b: Identifier) -> bool {
    match (a, b) {
        (Identifier::Numeric(x), Identifier::Numeric(y)) => x < y,
        (Identifier::Numeric(_), Identifier::Alphanumeric(_)) => true,
        (Identifier::Alphanumeric(_), Identifier::Numeric(_)) => false,
        (Identifier::Alphanumeric(s), Identifier::Alphanumeric(t)) => text_lt(s, t),
    }
}

/// The order of pre-release identifier lists: the first differing identifier
/// decides, and a list is below its own extensions.
pub open spec fn pre_le(a: Seq<Identifier>, b: Seq<Identifier>) -> bool
    decreases a.len(),
{
    if a.len() == 0 {
        true
    } else if b.len() == 0 {
        false
    } else if ident_lt(a[0], b[0]) {
        true
    } else if ident_lt(b[0], a[0]) {
        false
    } else {
        pre_le(a.drop_first(), b.drop_first())
    }
}

/// `a` is below `b` in its major, minor and patch numbers.
pub open spec fn core_lt(a: Precedence, b: Precedence) -> bool {
    ||| a.major < b.major
    ||| a.major == b.major && a.minor < b.minor
    ||| a.major == b.major && a.minor == b.minor && a.patch < b.patch
}

/// Semantic-version precedence: `a` ranks at most as high as `b`.
pub open spec fn precedence_le(a: Precedence, b: Precedence) -> bool {
    if core_lt(a, b) {
        true
    } else if core_lt(b, a) {
        false
    } else if b.pre.len() == 0 {
        true
    } else if a.pre.len() == 0 {
        false
    } else {
        pre_le(a.pre, b.pre)
    }
}

/// `a` and `b` are both semantic versions and `a` ranks strictly above `b`.
pub open spec fn outranks(a: Seq<char>, b: Seq<char>) -> bool {
    &&& semver_of(a) is Some
    &&& semver_of(b) is Some
    &&& !precedence_le(semver_of(a).unwrap(), semver_of(b).unwrap())
}

proof fn lemma_text_lt_order(s: Seq<char>, t: Seq<char>, u: Seq<char>)
    ensures
        !text_lt(s, s),
        s != t ==> text_lt(s, t) || text_lt(t, s),
        text_lt(s, t) && text_lt(t, u) ==> text_lt(s, u),
        !(text_lt(s, t) && text_lt(t, s)),
    decreases s.len(),
{
    if s.len() > 0 && t.len() > 0 {
        assert(s[0] != t[0] ==> (s[0] as int) != (t[0] as int));
    }
    if s.len() > 0 && t.len() > 0 && u.len() > 0 {
        lemma_text_lt_order(s.drop_first(), t.drop_first(), u.drop_first());
        if s != t && s[0] == t[0] {
            assert(s.drop_first() != t.drop_first()) by {
                if s.drop_first() == t.drop_first() {
                    assert(s =~= seq![s[0]] + s.drop_first());
                    assert(t =~= seq![t[0]] + t.drop_first());
                }
            }
        }
    } else if s.len() > 0 && t.len() > 0 {
        lemma_text_lt_order(s.drop_first(), t.drop_first(), s.drop_first());
        if s != t && s[0] == t[0] {
            assert(s.drop_first() != t.drop_first()) by {
                if s.drop_first() == t.drop_first() {
                    assert(s =~= seq![s[0]] + s.drop_first());
                    assert(t =~= seq![t[0]] + t.drop_first());
                }
            }
        }
    } else if s.len() > 0 {
        lemma_text_lt_order(s.drop_first(), s.drop_first(), s.drop_first());
    } else if t.len() == 0 {
        assert(s =~= t);
    }
}

proof fn lemma_ident_lt_order(a: Identifier, b: Identifier, c: Identifier)
    ensures
        !ident_lt(a, a),
        a != b ==> ident_lt(a, b) || ident_lt(b, a),
        ident_lt(a, b) && ident_lt(b, c) ==> ident_lt(a, c),
        !(ident_lt(a, b) && ident_lt(b, a)),
{
    match (a, b, c) {
        (Identifier::Alphanumeric(s), Identifier::Alphanumeric(t), Identifier::Alphanumeric(u)) => {
            lemma_text_lt_order(s, t, u);
        },
        (Identifier::Alphanumeric(s), Identifier::Alphanumeric(t), _) => {
            lemma_text_lt_order(s, t, s);
        },
        (Identifier::Alphanumeric(s), _, _) => {
            lemma_text_lt_order(s, s, s);
        },
        _ => {},
    }
}

proof fn lemma_pre_le_order(a: Seq<Identifier>, b: Seq<Identifier>, c: Seq<Identifier>)
    ensures
        pre_le(a, b) || pre_le(b, a),
        pre_le(a, b) && pre_le(b, c) ==> pre_le(a, c),
    decreases a.len(),
{
    if a.len() > 0 && b.len() > 0 {
        let c0 = if c.len() > 0 { c[0] } else { a[0] };
        lemma_ident_lt_order(a[0], b[0], c0);
        lemma_ident_lt_order(b[0], c0, a[0]);
        lemma_ident_lt_order(c0, a[0], b[0]);
        lemma_ident_lt_order(a[0], c0, b[0]);
        let c1 = if c.len() > 0 { c.drop_first() } else { c };
        lemma_pre_le_order(a.drop_first(), b.drop_first(), c1);
    }
}

/// Precedence is a total order on semantic versions up to equal rank.
pub proof fn lemma_precedence_total(a: Precedence, b: Precedence)
    ensures
        precedence_le(a, b) || precedence_le(b, a),
{
    lemma_pre_le_order(a.pre, b.pre, a.pre);
}

/// Precedence is transitive.
pub proof fn lemma_precedence_trans(a: Precedence, b: Precedence, c: Precedence)
    requires
        precedence_le(a, b),
        precedence_le(b, c),
    ensures
        precedence_le(a, c),
{
    lemma_pre_le_order(a.pre, b.pre, c.pre);
}

/// Texts compare by their first differing character, in ASCII order: after
/// any common prefix, the text whose next character is lower ranks lower,
/// whatever follows.
pub proof fn law_text_first_difference(prefix: Seq<char>, a: char, b: char, s: Seq<char>, t: Seq<char>)
    requires
        (a as int) < (b as int),
    ensures
        text_lt(prefix + seq![a] + s, prefix + seq![b] + t),
        !text_lt(prefix + seq![b] + t, prefix + seq![a] + s),
    decreases prefix.len(),
{
    let x = prefix + seq![a] + s;
    let y = prefix + seq![b] + t;
    if prefix.len() == 0 {
        assert(x[0] == a);
        assert(y[0] == b);
    } else {
        law_text_first_difference(prefix.drop_first(), a, b, s, t);
        assert(x.drop_first() =~= prefix.drop_first() + seq![a] + s);
        assert(y.drop_first() =~= prefix.drop_first() + seq![b] + t);
        assert(x[0] == prefix[0]);
        assert(y[0] == prefix[0]);
    }
}

/// A text ranks below each of its proper extensions.
pub proof fn law_text_prefix_lower(s: Seq<char>, rest: Seq<char>)
    requires
        rest.len() > 0,
    ensures
        text_lt(s, s + rest),
        !text_lt(s + rest, s),
    decreases s.len(),
{
    if s.len() > 0 {
        law_text_prefix_lower(s.drop_first(), rest);
        assert((s + rest).drop_first() =~= s.drop_first() + rest);
        assert((s + rest)[0] == s[0]);
    }
}

/// The release ranks above each of its pre-releases, and a higher major,
/// minor or patch number ranks higher whatever the pre-releases.
pub proof fn law_precedence_core_and_release(a: Precedence, b: Precedence)
    ensures
        a.major < b.major ==> precedence_le(a, b) && !precedence_le(b, a),
        a.major == b.major && a.minor < b.minor ==> precedence_le(a, b) && !precedence_le(b, a),
        a.major == b.major && a.minor == b.minor && a.patch < b.patch ==> precedence_le(a, b)
            && !precedence_le(b, a),
        a.major == b.major && a.minor == b.minor && a.patch == b.patch && a.pre.len() > 0
            && b.pre.len() == 0 ==> precedence_le(a, b) && !precedence_le(b, a),
{
}

/// Numeric identifiers rank by value and below every alphanumeric one;
/// alphanumeric identifiers rank in ASCII order of their texts.
pub proof fn law_identifier_order(m: u64, n: u64, s: Seq<char>, t: Seq<char>)
    ensures
        ident_lt(Identifier::Numeric(m), Identifier::Numeric(n)) == (m < n),
        ident_lt(Identifier::Numeric(m), Identifier::Alphanumeric(s)),
        !ident_lt(Identifier::Alphanumeric(s), Identifier::Numeric(m)),
        ident_lt(Identifier::Alphanumeric(s), Identifier::Alphanumeric(t)) == text_lt(s, t),
{
}

/// Pre-release identifier lists compare at the first place where they
/// differ: the list with the lower identifier there ranks lower.
pub proof fn law_pre_release_identifiers(
    common: Seq<Identifier>,
    x: Identifier,
    y: Identifier,
    s: Seq<Identifier>,
    t: Seq<Identifier>,
)
    requires
        ident_lt(x, y),
    ensures
        pre_le(common + seq![x] + s, common + seq![y] + t),
        !pre_le(common + seq![y] + t, common + seq![x] + s),
    decreases common.len(),
{
    lemma_ident_lt_order(x, y, x);
    let l = common + seq![x] + s;
    let r = common + seq![y] + t;
    if common.len() == 0 {
        assert(l[0] == x);
        assert(r[0] == y);
    } else {
        law_pre_release_identifiers(common.drop_first(), x, y, s, t);
        lemma_ident_lt_order(common[0], common[0], common[0]);
        assert(l.drop_first() =~= common.drop_first() + seq![x] + s);
        assert(r.drop_first() =~= common.drop_first() + seq![y] + t);
        assert(l[0] == common[0]);
        assert(r[0] == common[0]);
    }
}

/// An identifier of a pre-release, read.
#[derive(Debug, Clone, PartialEq, Eq)]
pub enum PreIdent {
    Numeric(u64),
    Alphanumeric(Vec<char>),
}

impl View for PreIdent {
    type V = Identifier;

    open spec fn view(&self) -> Identifier {
        match self {
            PreIdent::Numeric(x) => Identifier::Numeric(*x),
            PreIdent::Alphanumeric(s) => Identifier::Alphanumeric(s@),
        }
    }
}

/// A semantic version, read: what of it counts for precedence.
#[derive(Debug, Clone, PartialEq, Eq)]
pub struct SemVersion {
    pub major: u64,
    pub minor: u64,
    pub patch: u64,
    pub pre: Vec<PreIdent>,
}

impl View for SemVersion {
    type V = Precedence;

    open spec fn view(&self) -> Precedence {
        Precedence {
            major: self.major,
            minor: self.minor,
            patch: self.patch,
            pre: self.pre@.map_values(|x: PreIdent| x@),
        }
    }
}

proof fn lemma_first_pos(s: Seq<char>, c: char, i: int)
    requires
        0 <= i <= s.len(),
        forall|k: int| 0 <= k < i ==> s[k] != c,
        i == s.len() || s[i] == c,
    ensures
        first_pos(s, c) == i,
    decreases i,
{
    if i > 0 {
        lemma_first_pos(s.drop_first(), c, i - 1);
    }
}

/// The position of the first `c` in `s`, or the length of `s`.
fn first_position(s: &str, c: char) -> (p: usize)
    ensures
        p == first_pos(s@, c),
        p <= s@.len(),
{
    let n = s.unicode_len();
    let mut i: usize = 0;
    while i < n && s.get_char(i) != c
        invariant
            n == s@.len(),
            i <= n,
            forall|k: int| 0 <= k < i ==> s@[k] != c,
        decreases n - i,
    {
        i = i + 1;
    }
    proof {
        lemma_first_pos(s@, c, i as int);
    }
    i
}

/// The dot-separated fields of `s`.
fn split_dots(s: &str) -> (parts: Vec<Vec<char>>)
    ensures
        parts@.len() == fields(s@).len(),
        forall|k: int| 0 <= k < parts@.len() ==> #[trigger] parts@[k]@ == fields(s@)[k],
{
    let n = s.unicode_len();
    let mut done: Vec<Vec<char>> = Vec::new();
    let mut cur: Vec<char> = Vec::new();
    let mut i: usize = 0;
    assert(s@.take(0) =~= Seq::<char>::empty());
    while i < n
        invariant
            n == s@.len(),
            i <= n,
            fields(s@.take(i as int)).len() == done@.len() + 1,
            forall|k: int| 0 <= k < done@.len() ==> #[trigger] done@[k]@ == fields(s@.take(i as int))[k],
            cur@ == fields(s@.take(i as int)).last(),
        decreases n - i,
    {
        let c = s.get_char(i);
        let ghost f = fields(s@.take(i as int));
        let ghost next = s@.take(i + 1);
        assert(next.drop_last() =~= s@.take(i as int));
        assert(next.last() == c);
        if c == '.' {
            let finished = cur;
            done.push(finished);
            cur = Vec::new();
            assert(fields(next) == f.push(Seq::<char>::empty()));
            assert forall|k: int| 0 <= k < done@.len() implies #[trigger] done@[k]@ == fields(next)[k] by {
                if k < done@.len() - 1 {
                    assert(fields(next)[k] == f[k]);
                }
            }
        } else {
            cur.push(c);
            assert(fields(next) == f.update(f.len() - 1, f.last().push(c)));
            assert forall|k: int| 0 <= k < done@.len() implies #[trigger] done@[k]@ == fields(next)[k] by {
                assert(fields(next)[k] == f[k]);
            }
        }
        i = i + 1;
    }
    assert(s@.take(n as int) =~= s@);
    done.push(cur);
    proof {
        let f = fields(s@);
        assert forall|k: int| 0 <= k < done@.len() implies #[trigger] done@[k]@ == f[k] by {
            if k == done@.len() - 1 {
                assert(f[k] == f.last());
            }
        }
    }
    done
}

proof fn lemma_decimal_prefix(d: Seq<char>, i: int)
    requires
        0 <= i <= d.len(),
        all_digits(d),
    ensures
        decimal(d.take(i)) <= decimal(d),
    decreases d.len() - i,
{
    if i < d.len() {
        lemma_decimal_prefix(d, i + 1);
        let t = d.take(i + 1);
        assert(t.drop_last() =~= d.take(i));
        assert(is_digit(d[i]));
    } else {
        assert(d.take(i) =~= d);
    }
}

/// The value of `d` when it is a numeral.
fn numeral_value(d: &Vec<char>) -> (value: Option<u64>)
    ensures
        value is Some <==> numeral(d@),
        value matches Some(x) ==> x == decimal(d@),
{
    let n = d.len();
    if n == 0 {
        return None;
    }
    if n > 1 && d[0] == '0' {
        return None;
    }
    let mut cur: u64 = 0;
    let mut i: usize = 0;
    assert(d@.take(0) =~= Seq::<char>::empty());
    while i < n
        invariant
            n == d@.len(),
            n > 0,
            n == 1 || d@[0] != '0',
            i <= n,
            forall|k: int| 0 <= k < i ==> is_digit(#[trigger] d@[k]),
            cur == decimal(d@.take(i as int)),
        decreases n - i,
    {
        let c = d[i];
        if !('0' <= c && c <= '9') {
            assert(!is_digit(d@[i as int]));
            return None;
        }
        let ghost next = d@.take(i + 1);
        assert(next.drop_last() =~= d@.take(i as int));
        assert(next.last() == c);
        let digit = (c as u32 - '0' as u32) as u64;
        assert(digit == (c as int - '0' as int));
        match cur.checked_mul(10) {
            Some(m) => match m.checked_add(digit) {
                Some(x) => {
                    cur = x;
                },
                None => {
                    proof {
                        if all_digits(d@) {
                            lemma_decimal_prefix(d@, i + 1);
                        }
                    }
                    return None;
                },
            },
            None => {
                proof {
                    if all_digits(d@) {
                        lemma_decimal_prefix(d@, i + 1);
                    }
                }
                return None;
            },
        }
        i = i + 1;
    }
    assert(d@.take(n as int) =~= d@);
    Some(cur)
}

/// Whether every character of `d` is a digit.
fn digits_only(d: &Vec<char>) -> (all: bool)
    ensures
        all == all_digits(d@),
{
    let mut i: usize = 0;
    while i < d.len()
        invariant
            i <= d@.len(),
            forall|k: int| 0 <= k < i ==> is_digit(#[trigger] d@[k]),
        decreases d@.len() - i,
    {
        let c = d[i];
        if !('0' <= c && c <= '9') {
            assert(!is_digit(d@[i as int]));
            return false;
        }
        i = i + 1;
    }
    true
}

/// Whether `d` is an identifier.
fn is_identifier(d: &Vec<char>) -> (ok: bool)
    ensures
        ok == ident(d@),
{
    if d.len() == 0 {
        return false;
    }
    let mut i: usize = 0;
    while i < d.len()
        invariant
            i <= d@.len(),
            forall|k: int| 0 <= k < i ==> is_ident_char(#[trigger] d@[k]),
        decreases d@.len() - i,
    {
        let c = d[i];
        if !(('0' <= c && c <= '9') || ('A' <= c && c <= 'Z') || ('a' <= c && c <= 'z') || c == '-') {
            assert(!is_ident_char(d@[i as int]));
            return false;
        }
        i = i + 1;
    }
    true
}

/// A copy of `d`.
fn copy_chars(d: &Vec<char>) -> (copy: Vec<char>)
    ensures
        copy@ == d@,
{
    let mut copy: Vec<char> = Vec::new();
    let mut i: usize = 0;
    while i < d.len()
        invariant
            i <= d@.len(),
            copy@ == d@.take(i as int),
        decreases d@.len() - i,
    {
        copy.push(d[i]);
        i = i + 1;
        assert(copy@ =~= d@.take(i as int));
    }
    assert(d@.take(d@.len() as int) =~= d@);
    copy
}

/// The pre-release identifier that `d` is, when it is one.
fn pre_identifier(d: &Vec<char>) -> (id: Option<PreIdent>)
    ensures
        id is Some <==> pre_ident(d@),
        id matches Some(x) ==> x@ == identifier_of(d@),
{
    if !is_identifier(d) {
        return None;
    }
    if digits_only(d) {
        match numeral_value(d) {
            Some(x) => Some(PreIdent::Numeric(x)),
            None => None,
        }
    } else {
        Some(PreIdent::Alphanumeric(copy_chars(d)))
    }
}

/// Reads `v` as a semantic version; `None` when it is not one.
pub fn parse_semver(v: &str) -> (version: Option<SemVersion>)
    ensures
        version is None <==> semver_of(v@) is None,
        version matches Some(s) ==> semver_of(v@) == Some(s@),
{
    let n = v.unicode_len();
    let p = first_position(v, '+');
    let main = v.substring_char(0, p);
    assert(main@ =~= v@.take(p as int));
    let ghost build_good = p == v@.len() || forall|i: int|
        0 <= i < fields(v@.skip(p + 1)).len() ==> ident(#[trigger] fields(v@.skip(p + 1))[i]);
    if p < n {
        let build = v.substring_char(p + 1, n);
        assert(build@ =~= v@.skip(p + 1));
        let parts = split_dots(build);
        let mut k: usize = 0;
        while k < parts.len()
            invariant
                n == v@.len(),
                p < n,
                p == first_pos(v@, '+'),
                build@ == v@.skip(p as int + 1),
                build_good == (p == v@.len() || forall|i: int|
                    0 <= i < fields(v@.skip(p as int + 1)).len() ==> ident(
                        #[trigger] fields(v@.skip(p as int + 1))[i],
                    )),
                k <= parts@.len(),
                parts@.len() == fields(build@).len(),
                forall|j: int| 0 <= j < parts@.len() ==> #[trigger] parts@[j]@ == fields(build@)[j],
                forall|j: int| 0 <= j < k ==> ident(#[trigger] fields(build@)[j]),
            decreases parts@.len() - k,
        {
            if !is_identifier(&parts[k]) {
                assert(!ident(fields(build@)[k as int]));
                assert(fields(v@.skip(p as int + 1)) == fields(build@));
                assert(!build_good);
                return None;
            }
            k = k + 1;
        }
    }
    assert(build_good);
    assert(build_ok(v@));
    let m = main.unicode_len();
    let q = first_position(main, '-');
    let core_text = main.substring_char(0, q);
    assert(core_text@ =~= main@.take(q as int));
    let core = split_dots(core_text);
    if core.len() != 3 {
        return None;
    }
    let major = match numeral_value(&core[0]) {
        Some(x) => x,
        None => return None,
    };
    let minor = match numeral_value(&core[1]) {
        Some(x) => x,
        None => return None,
    };
    let patch = match numeral_value(&core[2]) {
        Some(x) => x,
        None => return None,
    };
    let mut pre: Vec<PreIdent> = Vec::new();
    let ghost pre_list = if q < main@.len() {
        fields(main@.skip(q + 1))
    } else {
        Seq::<Seq<char>>::empty()
    };
    if q < m {
        let pre_text = main.substring_char(q + 1, m);
        assert(pre_text@ =~= main@.skip(q + 1));
        let parts = split_dots(pre_text);
        let mut k: usize = 0;
        while k < parts.len()
            invariant
                m == main@.len(),
                q < m,
                main@ == v@.take(first_pos(v@, '+') as int),
                q == first_pos(main@, '-'),
                pre_text@ == main@.skip(q as int + 1),
                pre_list == (if q < main@.len() {
                    fields(main@.skip(q + 1))
                } else {
                    Seq::<Seq<char>>::empty()
                }),
                k <= parts@.len(),
                pre_list == fields(pre_text@),
                parts@.len() == pre_list.len(),
                forall|j: int| 0 <= j < parts@.len() ==> #[trigger] parts@[j]@ == pre_list[j],
                pre@.len() == k,
                forall|j: int| 0 <= j < k ==> pre_ident(#[trigger] pre_list[j]),
                forall|j: int| 0 <= j < k ==> #[trigger] pre@[j]@ == identifier_of(pre_list[j]),
            decreases parts@.len() - k,
        {
            match pre_identifier(&parts[k]) {
                Some(x) => {
                    pre.push(x);
                },
                None => {
                    assert(!pre_ident(pre_list[k as int]));
                    assert(q < main@.len());
                    assert(pre_list == fields(main@.skip(q as int + 1)));
                    assert(pre_fields(v@) == pre_list);
                    return None;
                },
            }
            k = k + 1;
        }
    }
    assert(pre_fields(v@) == pre_list);
    let version = SemVersion { major, minor, patch, pre };
    assert(version@.pre =~= pre_list.map_values(|d: Seq<char>| identifier_of(d)));
    Some(version)
}

/// The code point of `c`.
fn code_point(c: char) -> (u: u32)
    ensures
        u as int == c as int,
{
    c as u32
}

/// Whether `s` is below `t` in ASCII order.
fn text_less(s: &Vec<char>, t: &Vec<char>) -> (lt: bool)
    ensures
        lt == text_lt(s@, t@),
{
    let mut i: usize = 0;
    assert(s@.skip(0) =~= s@);
    assert(t@.skip(0) =~= t@);
    while i < s.len() && i < t.len()
        invariant
            i <= s@.len(),
            i <= t@.len(),
            text_lt(s@, t@) == text_lt(s@.skip(i as int), t@.skip(i as int)),
        decreases s@.len() - i,
    {
        assert(s@.skip(i as int)[0] == s@[i as int]);
        assert(t@.skip(i as int)[0] == t@[i as int]);
        let a = code_point(s[i]);
        let b = code_point(t[i]);
        if a < b {
            return true;
        }
        if a > b {
            return false;
        }
        assert(s@.skip(i as int).drop_first() =~= s@.skip(i + 1));
        assert(t@.skip(i as int).drop_first() =~= t@.skip(i + 1));
        i = i + 1;
    }
    i == s.len() && i < t.len()
}

/// Whether identifier `a` is below identifier `b`.
fn ident_less(a: &PreIdent, b: &PreIdent) -> (lt: bool)
    ensures
        lt == ident_lt(a@, b@),
{
    match (a, b) {
        (PreIdent::Numeric(x), PreIdent::Numeric(y)) => *x < *y,
        (PreIdent::Numeric(_), PreIdent::Alphanumeric(_)) => true,
        (PreIdent::Alphanumeric(_), PreIdent::Numeric(_)) => false,
        (PreIdent::Alphanumeric(s), PreIdent::Alphanumeric(t)) => text_less(s, t),
    }
}

/// Whether the pre-release list `a` ranks at most as high as `b`.
fn pre_at_most(a: &Vec<PreIdent>, b: &Vec<PreIdent>) -> (le: bool)
    ensures
        le == pre_le(a@.map_values(|x: PreIdent| x@), b@.map_values(|x: PreIdent| x@)),
{
    let ghost av = a@.map_values(|x: PreIdent| x@);
    let ghost bv = b@.map_values(|x: PreIdent| x@);
    let mut i: usize = 0;
    assert(av.skip(0) =~= av);
    assert(bv.skip(0) =~= bv);
    while i < a.len() && i < b.len()
        invariant
            i <= a@.len(),
            i <= b@.len(),
            av == a@.map_values(|x: PreIdent| x@),
            bv == b@.map_values(|x: PreIdent| x@),
            pre_le(av, bv) == pre_le(av.skip(i as int), bv.skip(i as int)),
        decreases a@.len() - i,
    {
        assert(av.skip(i as int)[0] == a@[i as int]@);
        assert(bv.skip(i as int)[0] == b@[i as int]@);
        if ident_less(&a[i], &b[i]) {
            return true;
        }
        if ident_less(&b[i], &a[i]) {
            return false;
        }
        assert(av.skip(i as int).drop_first() =~= av.skip(i + 1));
        assert(bv.skip(i as int).drop_first() =~= bv.skip(i + 1));
        i = i + 1;
    }
    i == a.len()
}

/// Whether `a` ranks at most as high as `b`, as [`precedence_le`] says.
pub fn precedence_at_most(a: &SemVersion, b: &SemVersion) -> (le: bool)
    ensures
        le == precedence_le(a@, b@),
{
    let a_below = a.major < b.major || (a.major == b.major && a.minor < b.minor) || (a.major
        == b.major && a.minor == b.minor && a.patch < b.patch);
    let b_below = b.major < a.major || (b.major == a.major && b.minor < a.minor) || (b.major
        == a.major && b.minor == a.minor && b.patch < a.patch);
    if a_below {
        true
    } else if b_below {
        false
    } else if b.pre.len() == 0 {
        true
    } else if a.pre.len() == 0 {
        false
    } else {
        pre_at_most(&a.pre, &b.pre)
    }
}

/// How two version texts compare: `Some(true)` when `a` ranks at most as high
/// as `b`, `Some(false)` when it ranks above, and `None` when either is not a
/// semantic version.
pub fn version_at_most(a: &str, b: &str) -> (le: Option<bool>)
    ensures
        le is None <==> semver_of(a@) is None || semver_of(b@) is None,
        le matches Some(x) ==> x == precedence_le(semver_of(a@).unwrap(), semver_of(b@).unwrap()),
{
    match (parse_semver(a), parse_semver(b)) {
        (Some(x), Some(y)) => Some(precedence_at_most(&x, &y)),
        _ => None,
    }
}

} // verus!
