//! Version comparison and checksums.
use sha1::Sha1;
use sha2::Digest;
use sha2::Sha256;
use std::cmp::Ordering;
use vstd::prelude::*;

use crate::text::{
    at, chars_of, eq_ignore_ascii_case, eq_ignore_ascii_case_exec, first_index, first_index_exec,
    is_ascii_hexdigit_char, is_sep_in, lemma_first_index, parse_u64, parse_u64_chars, skip_from,
    split_by, split_on, sub_chars, views,
};

verus! {

// ---------------------------------------------------------------------------
// Semantic versions
// ---------------------------------------------------------------------------
/// The version with one leading `v` removed.
pub open spec fn strip_v(s: Seq<char>) -> Seq<char> {
    if s.len() > 0 && s[0] == 'v' {
        s.drop_first()
    } else {
        s
    }
}

pub open spec fn dot_sep() -> spec_fn(char) -> bool {
    is_sep_in(seq!['.'])
}

/// `major.minor.patch[-pre]` with an optional leading `v`: the three numbers
/// and the text after the first `-`.
pub open spec fn parse_semver(s: Seq<char>) -> Option<(u64, u64, u64, Option<Seq<char>>)> {
    let v = strip_v(s);
    let k = first_index(v, '-');
    let core = v.take(k);
    let pre = if k < v.len() {
        Some(v.skip(k + 1))
    } else {
        None
    };
    let parts = split_by(core, dot_sep());
    if parts.len() == 3 && parse_u64(parts[0]) is Some && parse_u64(parts[1]) is Some && parse_u64(
        parts[2],
    ) is Some {
        Some((parse_u64(parts[0])->0, parse_u64(parts[1])->0, parse_u64(parts[2])->0, pre))
    } else {
        None
    }
}

pub open spec fn order_u64(a: u64, b: u64) -> Ordering {
    if a < b {
        Ordering::Less
    } else if a == b {
        Ordering::Equal
    } else {
        Ordering::Greater
    }
}

/// Lexicographic order of characters (the order of `str::cmp`: UTF-8 keeps
/// the order of code points).
pub open spec fn order_chars(a: Seq<char>, b: Seq<char>) -> Ordering
    decreases a.len(),
{
    if a.len() == 0 && b.len() == 0 {
        Ordering::Equal
    } else if a.len() == 0 {
        Ordering::Less
    } else if b.len() == 0 {
        Ordering::Greater
    } else if a[0] < b[0] {
        Ordering::Less
    } else if b[0] < a[0] {
        Ordering::Greater
    } else {
        order_chars(a.drop_first(), b.drop_first())
    }
}

/// Pre-release identifiers: numeric ones by value and before the others,
/// which go by their text.
pub open spec fn order_identifier(a: Seq<char>, b: Seq<char>) -> Ordering {
    match (parse_u64(a), parse_u64(b)) {
        (Some(x), Some(y)) => order_u64(x, y),
        (Some(_), None) => Ordering::Less,
        (None, Some(_)) => Ordering::Greater,
        (None, None) => order_chars(a, b),
    }
}

pub open spec fn order_identifiers(a: Seq<Seq<char>>, b: Seq<Seq<char>>) -> Ordering
    decreases a.len(),
{
    if a.len() == 0 && b.len() == 0 {
        Ordering::Equal
    } else if a.len() == 0 {
        Ordering::Less
    } else if b.len() == 0 {
        Ordering::Greater
    } else if order_identifier(a[0], b[0]) != Ordering::Equal {
        order_identifier(a[0], b[0])
    } else {
        order_identifiers(a.drop_first(), b.drop_first())
    }
}

pub open spec fn order_pre_release(a: Option<Seq<char>>, b: Option<Seq<char>>) -> Ordering {
    match (a, b) {
        (None, None) => Ordering::Equal,
        (None, Some(_)) => Ordering::Greater,
        (Some(_), None) => Ordering::Less,
        (Some(x), Some(y)) => order_identifiers(split_by(x, dot_sep()), split_by(y, dot_sep())),
    }
}

pub open spec fn then_order(first: Ordering, second: Ordering) -> Ordering {
    if first == Ordering::Equal {
        second
    } else {
        first
    }
}

/// The order of two versions, where both parse.
pub open spec fn semver_order(l: Seq<char>, r: Seq<char>) -> Option<Ordering> {
    match (parse_semver(l), parse_semver(r)) {
        (Some(a), Some(b)) => Some(
            then_order(
                order_u64(a.0, b.0),
                then_order(
                    order_u64(a.1, b.1),
                    then_order(order_u64(a.2, b.2), order_pre_release(a.3, b.3)),
                ),
            ),
        ),
        _ => None,
    }
}

pub open spec fn flip(o: Ordering) -> Ordering {
    match o {
        Ordering::Less => Ordering::Greater,
        Ordering::Equal => Ordering::Equal,
        Ordering::Greater => Ordering::Less,
    }
}

#[derive(Debug)]
pub struct ParsedSemver {
    pub major: u64,
    pub minor: u64,
    pub patch: u64,
    pub pre: Option<Vec<char>>,
}

impl ParsedSemver {
    pub open spec fn model(&self) -> (u64, u64, u64, Option<Seq<char>>) {
        (
            self.major,
            self.minor,
            self.patch,
            match self.pre {
                Some(p) => Some(p@),
                None => None,
            },
        )
    }
}

fn parse_semver_exec(version: &str) -> (r: Option<ParsedSemver>)
    ensures
        match r {
            Some(p) => parse_semver(version@) == Some(p.model()),
            None => parse_semver(version@) is None,
        },
{
    let s = chars_of(version);
    let v = if s.len() > 0 && s[0] == 'v' {
        sub_chars(&s, 1, s.len())
    } else {
        sub_chars(&s, 0, s.len())
    };
    assert(v@ == strip_v(version@)) by {
        if s@.len() > 0 && s@[0] == 'v' {
            assert(v@ =~= s@.drop_first());
        } else {
            assert(v@ =~= s@);
        }
    }
    let k = first_index_exec(&v, '-');
    proof {
        lemma_first_index(v@, '-');
    }
    let core = sub_chars(&v, 0, k);
    assert(core@ =~= v@.take(k as int));
    let pre = if k < v.len() {
        let p = sub_chars(&v, k + 1, v.len());
        assert(p@ =~= v@.skip(k + 1));
        Some(p)
    } else {
        None
    };
    let dot = vec!['.'];
    assert(dot@ =~= seq!['.']);
    let parts = split_on(&core, &dot);
    if parts.len() != 3 {
        return None;
    }
    let major = parse_u64_chars(&parts[0]);
    let minor = parse_u64_chars(&parts[1]);
    let patch = parse_u64_chars(&parts[2]);
    assert(views(parts@)[0] == parts@[0]@);
    assert(views(parts@)[1] == parts@[1]@);
    assert(views(parts@)[2] == parts@[2]@);
    match (major, minor, patch) {
        (Some(major), Some(minor), Some(patch)) => {
            let r = ParsedSemver { major, minor, patch, pre };
            Some(r)
        },
        _ => None,
    }
}

fn is_equal(o: Ordering) -> (r: bool)
    ensures
        r == (o == Ordering::Equal),
{
    match o {
        Ordering::Equal => true,
        _ => false,
    }
}

fn order_u64_exec(a: u64, b: u64) -> (r: Ordering)
    ensures
        r == order_u64(a, b),
{
    if a < b {
        Ordering::Less
    } else if a == b {
        Ordering::Equal
    } else {
        Ordering::Greater
    }
}

fn order_chars_exec(a: &Vec<char>, b: &Vec<char>) -> (r: Ordering)
    ensures
        r == order_chars(a@, b@),
{
    let mut i: usize = 0;
    assert(skip_from(a@, 0) =~= a@);
    assert(skip_from(b@, 0) =~= b@);
    while i < a.len() && i < b.len()
        invariant
            i <= a.len(),
            i <= b.len(),
            order_chars(a@, b@) == order_chars(skip_from(a@, i), skip_from(b@, i)),
        decreases a.len() - i,
    {
        if a[i] < b[i] {
            return Ordering::Less;
        }
        if b[i] < a[i] {
            return Ordering::Greater;
        }
        assert(skip_from(a@, i).drop_first() =~= a@.skip(i + 1));
        assert(skip_from(b@, i).drop_first() =~= b@.skip(i + 1));
        i = i + 1;
    }
    if i == a.len() && i == b.len() {
        Ordering::Equal
    } else if i == a.len() {
        Ordering::Less
    } else {
        Ordering::Greater
    }
}

fn order_identifier_exec(a: &Vec<char>, b: &Vec<char>) -> (r: Ordering)
    ensures
        r == order_identifier(a@, b@),
{
    match (parse_u64_chars(a), parse_u64_chars(b)) {
        (Some(x), Some(y)) => order_u64_exec(x, y),
        (Some(_), None) => Ordering::Less,
        (None, Some(_)) => Ordering::Greater,
        (None, None) => order_chars_exec(a, b),
    }
}

fn order_identifiers_exec(a: &Vec<Vec<char>>, b: &Vec<Vec<char>>) -> (r: Ordering)
    ensures
        r == order_identifiers(views(a@), views(b@)),
{
    let mut i: usize = 0;
    assert(skip_from(views(a@), 0) =~= views(a@));
    assert(skip_from(views(b@), 0) =~= views(b@));
    while i < a.len() && i < b.len()
        invariant
            i <= a.len(),
            i <= b.len(),
            order_identifiers(views(a@), views(b@)) == order_identifiers(
                skip_from(views(a@), i),
                skip_from(views(b@), i),
            ),
        decreases a.len() - i,
    {
        let o = order_identifier_exec(&a[i], &b[i]);
        assert(skip_from(views(a@), i).len() > 0);
        assert(skip_from(views(b@), i).len() > 0);
        assert(skip_from(views(a@), i)[0] == at(a@, i)@);
        assert(skip_from(views(b@), i)[0] == at(b@, i)@);
        if !is_equal(o) {
            return o;
        }
        assert(skip_from(views(a@), i).drop_first() =~= views(a@).skip(i + 1));
        assert(skip_from(views(b@), i).drop_first() =~= views(b@).skip(i + 1));
        i = i + 1;
    }
    assert(skip_from(views(a@), i).len() == a.len() - i);
    assert(skip_from(views(b@), i).len() == b.len() - i);
    if i == a.len() && i == b.len() {
        Ordering::Equal
    } else if i == a.len() {
        Ordering::Less
    } else {
        Ordering::Greater
    }
}

/// Compares two semantic versions (`major.minor.patch`, an optional leading
/// `v`, an optional `-pre.release` part); `None` when either does not parse.
pub fn compare_semver(left: &str, right: &str) -> (r: Option<Ordering>)
    ensures
        r == semver_order(left@, right@),
{
    let a = parse_semver_exec(left);
    let b = parse_semver_exec(right);
    match (a, b) {
        (Some(a), Some(b)) => {
            let core = {
                let o1 = order_u64_exec(a.major, b.major);
                let o2 = order_u64_exec(a.minor, b.minor);
                let o3 = order_u64_exec(a.patch, b.patch);
                if !is_equal(o1) {
                    o1
                } else if !is_equal(o2) {
                    o2
                } else {
                    o3
                }
            };
            if !is_equal(core) {
                return Some(core);
            }
            let pre = match (a.pre, b.pre) {
                (None, None) => Ordering::Equal,
                (None, Some(_)) => Ordering::Greater,
                (Some(_), None) => Ordering::Less,
                (Some(x), Some(y)) => {
                    let dot = vec!['.'];
                    assert(dot@ =~= seq!['.']);
                    let xs = split_on(&x, &dot);
                    let ys = split_on(&y, &dot);
                    order_identifiers_exec(&xs, &ys)
                },
            };
            Some(pre)
        },
        _ => None,
    }
}

// ---------------------------------------------------------------------------
// Laws of the version order
// ---------------------------------------------------------------------------
proof fn lemma_order_chars_flip(a: Seq<char>, b: Seq<char>)
    ensures
        order_chars(b, a) == flip(order_chars(a, b)),
    decreases a.len(),
{
    if a.len() > 0 && b.len() > 0 && a[0] == b[0] {
        lemma_order_chars_flip(a.drop_first(), b.drop_first());
    }
}

proof fn lemma_order_chars_refl(a: Seq<char>)
    ensures
        order_chars(a, a) == Ordering::Equal,
    decreases a.len(),
{
    if a.len() > 0 {
        lemma_order_chars_refl(a.drop_first());
    }
}

proof fn lemma_order_identifier_flip(a: Seq<char>, b: Seq<char>)
    ensures
        order_identifier(b, a) == flip(order_identifier(a, b)),
{
    lemma_order_chars_flip(a, b);
}

proof fn lemma_order_identifiers_flip(a: Seq<Seq<char>>, b: Seq<Seq<char>>)
    ensures
        order_identifiers(b, a) == flip(order_identifiers(a, b)),
    decreases a.len(),
{
    if a.len() > 0 && b.len() > 0 {
        lemma_order_identifier_flip(a[0], b[0]);
        lemma_order_identifiers_flip(a.drop_first(), b.drop_first());
    }
}

proof fn lemma_order_identifiers_refl(a: Seq<Seq<char>>)
    ensures
        order_identifiers(a, a) == Ordering::Equal,
    decreases a.len(),
{
    if a.len() > 0 {
        lemma_order_chars_refl(a[0]);
        lemma_order_identifiers_refl(a.drop_first());
    }
}

/// Swapping the two versions reverses their order: where `compare_semver(a, b)`
/// is `Some(o)`, `compare_semver(b, a)` is `Some(o.reverse())`, and where one
/// is `None` so is the other.
pub proof fn law_compare_semver_antisymmetric(a: Seq<char>, b: Seq<char>)
    ensures
        semver_order(b, a) == match semver_order(a, b) {
            Some(o) => Some(flip(o)),
            None => None,
        },
{
    if let (Some(x), Some(y)) = (parse_semver(a), parse_semver(b)) {
        match (x.3, y.3) {
            (Some(p), Some(q)) => {
                lemma_order_identifiers_flip(split_by(p, dot_sep()), split_by(q, dot_sep()));
            },
            _ => {},
        }
    }
}

/// Every version that parses equals itself.
pub proof fn law_compare_semver_reflexive(a: Seq<char>)
    requires
        parse_semver(a) is Some,
    ensures
        semver_order(a, a) == Some(Ordering::Equal),
{
    let x = parse_semver(a)->0;
    if let Some(p) = x.3 {
        lemma_order_identifiers_refl(split_by(p, dot_sep()));
    }
}

/// `o1` then `o2` in a chain of comparisons `a ? b ? c` gives `a < c`
/// where one step is `<` and the other not `>`, and `a == c` where both are
/// `==`.
pub open spec fn chains(o1: Ordering, o2: Ordering, o: Ordering) -> bool {
    &&& (o1 == Ordering::Less && o2 != Ordering::Greater) ==> o == Ordering::Less
    &&& (o1 != Ordering::Greater && o2 == Ordering::Less) ==> o == Ordering::Less
    &&& (o1 == Ordering::Equal && o2 == Ordering::Equal) ==> o == Ordering::Equal
}

proof fn lemma_order_chars_chains(a: Seq<char>, b: Seq<char>, c: Seq<char>)
    ensures
        chains(order_chars(a, b), order_chars(b, c), order_chars(a, c)),
    decreases a.len(),
{
    if a.len() > 0 && b.len() > 0 && c.len() > 0 {
        lemma_order_chars_chains(a.drop_first(), b.drop_first(), c.drop_first());
    }
}

proof fn lemma_order_identifier_chains(a: Seq<char>, b: Seq<char>, c: Seq<char>)
    ensures
        chains(order_identifier(a, b), order_identifier(b, c), order_identifier(a, c)),
{
    lemma_order_chars_chains(a, b, c);
}

proof fn lemma_order_identifiers_chains(a: Seq<Seq<char>>, b: Seq<Seq<char>>, c: Seq<Seq<char>>)
    ensures
        chains(order_identifiers(a, b), order_identifiers(b, c), order_identifiers(a, c)),
    decreases a.len(),
{
    if a.len() > 0 && b.len() > 0 && c.len() > 0 {
        lemma_order_identifier_chains(a[0], b[0], c[0]);
        lemma_order_identifiers_chains(a.drop_first(), b.drop_first(), c.drop_first());
    }
}

proof fn lemma_then_order_chains(x1: Ordering, x2: Ordering, x: Ordering, y1: Ordering, y2: Ordering, y: Ordering)
    requires
        chains(x1, x2, x),
        chains(y1, y2, y),
    ensures
        chains(then_order(x1, y1), then_order(x2, y2), then_order(x, y)),
{
}

/// The order of versions is transitive: where `a` comes before `b` and `b`
/// before `c`, `a` comes before `c`; and versions that compare equal to a
/// third compare equal to each other.
pub proof fn law_compare_semver_transitive(a: Seq<char>, b: Seq<char>, c: Seq<char>)
    requires
        semver_order(a, b) is Some,
        semver_order(b, c) is Some,
    ensures
        semver_order(a, c) is Some,
        chains(semver_order(a, b)->0, semver_order(b, c)->0, semver_order(a, c)->0),
{
    let x = parse_semver(a)->0;
    let y = parse_semver(b)->0;
    let z = parse_semver(c)->0;
    let pre_xy = order_pre_release(x.3, y.3);
    let pre_yz = order_pre_release(y.3, z.3);
    let pre_xz = order_pre_release(x.3, z.3);
    if let (Some(p), Some(q), Some(r)) = (x.3, y.3, z.3) {
        lemma_order_identifiers_chains(split_by(p, dot_sep()), split_by(q, dot_sep()), split_by(r, dot_sep()));
    }
    assert(chains(pre_xy, pre_yz, pre_xz));
    lemma_then_order_chains(
        order_u64(x.2, y.2), order_u64(y.2, z.2), order_u64(x.2, z.2),
        pre_xy, pre_yz, pre_xz,
    );
    lemma_then_order_chains(
        order_u64(x.1, y.1), order_u64(y.1, z.1), order_u64(x.1, z.1),
        then_order(order_u64(x.2, y.2), pre_xy), then_order(order_u64(y.2, z.2), pre_yz),
        then_order(order_u64(x.2, z.2), pre_xz),
    );
    lemma_then_order_chains(
        order_u64(x.0, y.0), order_u64(y.0, z.0), order_u64(x.0, z.0),
        then_order(order_u64(x.1, y.1), then_order(order_u64(x.2, y.2), pre_xy)),
        then_order(order_u64(y.1, z.1), then_order(order_u64(y.2, z.2), pre_yz)),
        then_order(order_u64(x.1, z.1), then_order(order_u64(x.2, z.2), pre_xz)),
    );
}

// ---------------------------------------------------------------------------
// Checksums
// ---------------------------------------------------------------------------
/// The SHA-1 digest of some bytes (computed by the `sha1` crate).
pub uninterp spec fn sha1_digest(data: Seq<u8>) -> Seq<u8>;

/// The SHA-256 digest of some bytes (computed by the `sha2` crate).
pub uninterp spec fn sha256_digest(data: Seq<u8>) -> Seq<u8>;

pub open spec fn hex_digit(n: nat) -> char {
    if n < 10 {
        ((n + 48) as u32) as char
    } else {
        ((n + 87) as u32) as char
    }
}

/// Lower-case hexadecimal: two digits per byte, high nibble first.
pub open spec fn hex_lower(data: Seq<u8>) -> Seq<char>
    decreases data.len(),
{
    if data.len() == 0 {
        Seq::empty()
    } else {
        hex_lower(data.drop_last()) + seq![
            hex_digit((data.last() / 16) as nat),
            hex_digit((data.last() % 16) as nat),
        ]
    }
}

pub proof fn lemma_hex_lower(data: Seq<u8>)
    ensures
        hex_lower(data).len() == 2 * data.len(),
        forall|i: int| 0 <= i < hex_lower(data).len() ==> is_ascii_hexdigit_char(#[trigger] hex_lower(data)[i]),
    decreases data.len(),
{
    if data.len() > 0 {
        lemma_hex_lower(data.drop_last());
    }
}

/// `Sha1::digest` of the `sha1` crate; its output is 20 bytes long (the
/// hasher's `OutputSize` is `U20`).
#[verifier::external_body]
fn sha1_digest_bytes(data: &[u8]) -> (r: Vec<u8>)
    ensures
        r@ == sha1_digest(data@),
        r@.len() == 20,
{
    Sha1::digest(data).to_vec()
}

/// `Sha256::digest` of the `sha2` crate; its output is 32 bytes long (the
/// hasher's `OutputSize` is `U32`).
#[verifier::external_body]
fn sha256_digest_bytes(data: &[u8]) -> (r: Vec<u8>)
    ensures
        r@ == sha256_digest(data@),
        r@.len() == 32,
{
    Sha256::digest(data).to_vec()
}

/// `hex::encode`: each byte as two lower-case hexadecimal digits, as the
/// crate documents ("Encodes `data` as hex string using lowercase
/// characters").
#[verifier::external_body]
pub(crate) fn hex_encode(data: &[u8]) -> (r: String)
    ensures
        r@ == hex_lower(data@),
{
    hex::encode(data)
}

/// The SHA-256 digest of `bytes` in lower-case hexadecimal (64 digits).
pub fn sha256_hex(bytes: &[u8]) -> (r: String)
    ensures
        r@ == hex_lower(sha256_digest(bytes@)),
        r@.len() == 64,
{
    let digest = sha256_digest_bytes(bytes);
    proof {
        lemma_hex_lower(digest@);
    }
    hex_encode(digest.as_slice())
}

/// Whether the SHA-256 digest of `bytes` is `expected`, in either case.
pub fn sha256_matches(bytes: &[u8], expected: &str) -> (r: bool)
    ensures
        r == eq_ignore_ascii_case(hex_lower(sha256_digest(bytes@)), expected@),
{
    let actual = sha256_hex(bytes);
    let a = chars_of(actual.as_str());
    let e = chars_of(expected);
    eq_ignore_ascii_case_exec(&a, &e)
}

/// The SHA-1 digest of `bytes` in lower-case hexadecimal (40 digits).
pub fn sha1_hex(bytes: &[u8]) -> (r: String)
    ensures
        r@ == hex_lower(sha1_digest(bytes@)),
        r@.len() == 40,
{
    let digest = sha1_digest_bytes(bytes);
    proof {
        lemma_hex_lower(digest@);
    }
    hex_encode(digest.as_slice())
}

/// Whether the SHA-1 digest of `bytes` is `expected`, in either case.
pub fn sha1_matches(bytes: &[u8], expected: &str) -> (r: bool)
    ensures
        r == eq_ignore_ascii_case(hex_lower(sha1_digest(bytes@)), expected@),
{
    let actual = sha1_hex(bytes);
    let a = chars_of(actual.as_str());
    let e = chars_of(expected);
    eq_ignore_ascii_case_exec(&a, &e)
}

} // verus!
