use std::cmp::Ordering;

use vstd::prelude::*;

use crate::error::BldrError;
use crate::text::{index_of_from, lemma_index_of_from_bounds, split_on, split_str, substring};

verus! {

// A version is `digits(.digits)*`, optionally followed by `-` and a non-empty
// extension. Numeric components are compared as numbers, a missing component
// counting as zero; at equal numbers a version without extension is the
// greater, and two extensions are compared by code point.

pub open spec fn is_digit(c: char) -> bool {
    '0' <= c <= '9'
}

/// The number that a string of decimal digits denotes.
pub open spec fn digits_value(s: Seq<char>) -> nat
    decreases s.len(),
{
    if s.len() == 0 {
        0
    } else {
        digits_value(s.drop_last()) * 10 + (s.last() as nat - '0' as nat) as nat
    }
}

/// Where the numeric part of a version ends: its first `-`, or its end.
pub open spec fn dash_index(s: Seq<char>) -> int {
    index_of_from(s, '-', 0)
}

pub open spec fn numeric_part(s: Seq<char>) -> Seq<char> {
    s.take(dash_index(s))
}

/// The text after the first `-`, if there is one.
pub open spec fn extension(s: Seq<char>) -> Option<Seq<char>> {
    if dash_index(s) < s.len() {
        Some(s.skip(dash_index(s) + 1))
    } else {
        None
    }
}

/// The dot-separated numeric components, as text.
pub open spec fn components(s: Seq<char>) -> Seq<Seq<char>> {
    split_on(numeric_part(s), '.')
}

pub open spec fn is_component(p: Seq<char>) -> bool {
    p.len() > 0 && forall|i: int| 0 <= i < p.len() ==> is_digit(#[trigger] p[i])
}

/// `s` matches the version grammar.
pub open spec fn well_formed_version(s: Seq<char>) -> bool {
    &&& forall|i: int| 0 <= i < components(s).len() ==> is_component(#[trigger] components(s)[i])
    &&& extension(s) matches Some(e) ==> e.len() > 0
}

/// `s` matches the version grammar and each component fits in 64 bits.
pub open spec fn valid_version(s: Seq<char>) -> bool {
    &&& well_formed_version(s)
    &&& forall|i: int|
        0 <= i < components(s).len() ==> digits_value(#[trigger] components(s)[i]) <= u64::MAX
}

/// The numeric components as numbers.
pub open spec fn component_values(s: Seq<char>) -> Seq<nat> {
    components(s).map_values(|p: Seq<char>| digits_value(p))
}

pub open spec fn part_at(v: Seq<nat>, i: int) -> nat {
    if 0 <= i < v.len() {
        v[i]
    } else {
        0
    }
}

/// Compares numeric components from position `i` on, padding the shorter with zeros.
pub open spec fn compare_parts_from(a: Seq<nat>, b: Seq<nat>, i: int) -> Ordering
    decreases a.len() + b.len() - i,
{
    if i >= a.len() && i >= b.len() {
        Ordering::Equal
    } else if part_at(a, i) < part_at(b, i) {
        Ordering::Less
    } else if part_at(a, i) > part_at(b, i) {
        Ordering::Greater
    } else {
        compare_parts_from(a, b, i + 1)
    }
}

/// Compares two texts by code point from position `i` on; a proper prefix is the lesser.
pub open spec fn compare_text_from(a: Seq<char>, b: Seq<char>, i: int) -> Ordering
    decreases a.len() + b.len() - i,
{
    if i >= a.len() && i >= b.len() {
        Ordering::Equal
    } else if i >= a.len() {
        Ordering::Less
    } else if i >= b.len() {
        Ordering::Greater
    } else if (a[i] as u32) < (b[i] as u32) {
        Ordering::Less
    } else if (a[i] as u32) > (b[i] as u32) {
        Ordering::Greater
    } else {
        compare_text_from(a, b, i + 1)
    }
}

/// Orders extensions at equal numeric versions: none beats any.
pub open spec fn compare_extensions(a: Option<Seq<char>>, b: Option<Seq<char>>) -> Ordering {
    match (a, b) {
        (None, None) => Ordering::Equal,
        (None, Some(_)) => Ordering::Greater,
        (Some(_), None) => Ordering::Less,
        (Some(x), Some(y)) => compare_text_from(x, y, 0),
    }
}

/// The order of two versions.
pub open spec fn version_order(a: Seq<char>, b: Seq<char>) -> Ordering {
    let o = compare_parts_from(component_values(a), component_values(b), 0);
    if o == Ordering::Equal {
        compare_extensions(extension(a), extension(b))
    } else {
        o
    }
}

pub open spec fn flip(o: Ordering) -> Ordering {
    match o {
        Ordering::Less => Ordering::Greater,
        Ordering::Equal => Ordering::Equal,
        Ordering::Greater => Ordering::Less,
    }
}

pub open spec fn as_nats(v: Seq<u64>) -> Seq<nat> {
    v.map_values(|x: u64| x as nat)
}

proof fn lemma_digits_value_prefix(s: Seq<char>, j: int, k: int)
    requires
        0 <= j <= k <= s.len(),
    ensures
        digits_value(s.take(j)) <= digits_value(s.take(k)),
    decreases k - j,
{
    if j < k {
        lemma_digits_value_prefix(s, j, k - 1);
        assert(s.take(k).drop_last() =~= s.take(k - 1));
    }
}

proof fn lemma_parts_reflexive(a: Seq<nat>, i: int)
    requires
        0 <= i,
    ensures
        compare_parts_from(a, a, i) == Ordering::Equal,
    decreases a.len() + a.len() - i,
{
    if i < a.len() {
        lemma_parts_reflexive(a, i + 1);
    }
}

proof fn lemma_parts_flip(a: Seq<nat>, b: Seq<nat>, i: int)
    requires
        0 <= i,
    ensures
        compare_parts_from(a, b, i) == flip(compare_parts_from(b, a, i)),
    decreases a.len() + b.len() - i,
{
    if !(i >= a.len() && i >= b.len()) && part_at(a, i) == part_at(b, i) {
        lemma_parts_flip(a, b, i + 1);
    }
}

proof fn lemma_parts_transitive(a: Seq<nat>, b: Seq<nat>, c: Seq<nat>, i: int, o: Ordering)
    requires
        0 <= i,
        o != Ordering::Equal,
        compare_parts_from(a, b, i) == o,
        compare_parts_from(b, c, i) == o,
    ensures
        compare_parts_from(a, c, i) == o,
    decreases a.len() + b.len() + c.len() - i,
{
    if part_at(a, i) == part_at(b, i) && part_at(b, i) == part_at(c, i) {
        lemma_parts_transitive(a, b, c, i + 1, o);
    }
}

proof fn lemma_parts_equal_substitutes(a: Seq<nat>, b: Seq<nat>, c: Seq<nat>, i: int)
    requires
        0 <= i,
        compare_parts_from(a, b, i) == Ordering::Equal,
    ensures
        compare_parts_from(a, c, i) == compare_parts_from(b, c, i),
    decreases a.len() + b.len() + c.len() - i,
{
    if !(i >= a.len() && i >= b.len() && i >= c.len()) {
        lemma_parts_equal_substitutes(a, b, c, i + 1);
    }
}

pub proof fn lemma_text_reflexive(a: Seq<char>, i: int)
    requires
        0 <= i,
    ensures
        compare_text_from(a, a, i) == Ordering::Equal,
    decreases a.len() + a.len() - i,
{
    if i < a.len() {
        lemma_text_reflexive(a, i + 1);
    }
}

proof fn lemma_text_flip(a: Seq<char>, b: Seq<char>, i: int)
    requires
        0 <= i,
    ensures
        compare_text_from(a, b, i) == flip(compare_text_from(b, a, i)),
    decreases a.len() + b.len() - i,
{
    if i < a.len() && i < b.len() && (a[i] as u32) == (b[i] as u32) {
        lemma_text_flip(a, b, i + 1);
    }
}

proof fn lemma_text_transitive(a: Seq<char>, b: Seq<char>, c: Seq<char>, i: int, o: Ordering)
    requires
        0 <= i,
        o != Ordering::Equal,
        compare_text_from(a, b, i) == o,
        compare_text_from(b, c, i) == o,
    ensures
        compare_text_from(a, c, i) == o,
    decreases a.len() + b.len() + c.len() - i,
{
    if i < a.len() && i < b.len() && i < c.len() && (a[i] as u32) == (b[i] as u32) && (b[i] as u32)
        == (c[i] as u32) {
        lemma_text_transitive(a, b, c, i + 1, o);
    }
}

proof fn lemma_text_equal_substitutes(a: Seq<char>, b: Seq<char>, c: Seq<char>, i: int)
    requires
        0 <= i,
        compare_text_from(a, b, i) == Ordering::Equal,
    ensures
        compare_text_from(a, c, i) == compare_text_from(b, c, i),
    decreases a.len() + b.len() + c.len() - i,
{
    if i < a.len() && i < c.len() {
        lemma_text_equal_substitutes(a, b, c, i + 1);
    }
}

proof fn lemma_extensions_laws(a: Option<Seq<char>>, b: Option<Seq<char>>, c: Option<Seq<char>>)
    ensures
        compare_extensions(a, a) == Ordering::Equal,
        compare_extensions(a, b) == flip(compare_extensions(b, a)),
        compare_extensions(a, b) == Ordering::Less && compare_extensions(b, c) == Ordering::Less
            ==> compare_extensions(a, c) == Ordering::Less,
        compare_extensions(a, b) == Ordering::Greater && compare_extensions(b, c)
            == Ordering::Greater ==> compare_extensions(a, c) == Ordering::Greater,
        compare_extensions(a, b) == Ordering::Equal ==> compare_extensions(a, c)
            == compare_extensions(b, c),
{
    if let Some(x) = a {
        lemma_text_reflexive(x, 0);
        if let Some(y) = b {
            lemma_text_flip(x, y, 0);
            if let Some(z) = c {
                if compare_text_from(x, y, 0) == Ordering::Less && compare_text_from(y, z, 0)
                    == Ordering::Less {
                    lemma_text_transitive(x, y, z, 0, Ordering::Less);
                }
                if compare_text_from(x, y, 0) == Ordering::Greater && compare_text_from(y, z, 0)
                    == Ordering::Greater {
                    lemma_text_transitive(x, y, z, 0, Ordering::Greater);
                }
                if compare_text_from(x, y, 0) == Ordering::Equal {
                    lemma_text_equal_substitutes(x, y, z, 0);
                }
            }
        }
    }
}

/// Every version is equal to itself.
pub proof fn lemma_version_order_reflexive(a: Seq<char>)
    ensures
        version_order(a, a) == Ordering::Equal,
{
    lemma_parts_reflexive(component_values(a), 0);
    lemma_extensions_laws(extension(a), extension(a), extension(a));
}

/// Swapping the two versions reverses their order.
pub proof fn lemma_version_order_antisymmetric(a: Seq<char>, b: Seq<char>)
    ensures
        version_order(a, b) == flip(version_order(b, a)),
{
    lemma_parts_flip(component_values(a), component_values(b), 0);
    lemma_extensions_laws(extension(a), extension(b), extension(b));
}

/// The order of versions is transitive, and versions that compare equal
/// compare alike with every third version.
pub proof fn lemma_version_order_transitive(a: Seq<char>, b: Seq<char>, c: Seq<char>)
    ensures
        version_order(a, b) == Ordering::Less && version_order(b, c) == Ordering::Less
            ==> version_order(a, c) == Ordering::Less,
        version_order(a, b) == Ordering::Greater && version_order(b, c) == Ordering::Greater
            ==> version_order(a, c) == Ordering::Greater,
        version_order(a, b) == Ordering::Equal ==> version_order(a, c) == version_order(b, c),
        version_order(a, b) == Ordering::Equal ==> version_order(c, a) == version_order(c, b),
{
    let (va, vb, vc) = (component_values(a), component_values(b), component_values(c));
    let (ea, eb, ec) = (extension(a), extension(b), extension(c));
    lemma_extensions_laws(ea, eb, ec);
    lemma_extensions_laws(eb, ec, ea);
    lemma_extensions_laws(ec, ea, eb);
    lemma_parts_flip(va, vc, 0);
    lemma_parts_flip(vb, vc, 0);
    lemma_extensions_laws(ec, eb, ea);
    lemma_extensions_laws(ea, ec, eb);
    if compare_parts_from(va, vb, 0) == Ordering::Equal {
        lemma_parts_equal_substitutes(va, vb, vc, 0);
    }
    let o1 = compare_parts_from(va, vb, 0);
    let o2 = compare_parts_from(vb, vc, 0);
    if o1 == Ordering::Less && o2 == Ordering::Less {
        lemma_parts_transitive(va, vb, vc, 0, Ordering::Less);
    }
    if o1 == Ordering::Greater && o2 == Ordering::Greater {
        lemma_parts_transitive(va, vb, vc, 0, Ordering::Greater);
    }
    if o2 == Ordering::Equal {
        lemma_parts_flip(va, vb, 0);
        lemma_parts_flip(vc, vb, 0);
        lemma_parts_equal_substitutes(vb, vc, va, 0);
    }
}

/// Reads a string of decimal digits as a `u64`; `None` where its value does not fit.
fn parse_component(p: &str) -> (r: Option<u64>)
    requires
        is_component(p@),
    ensures
        r matches Some(v) ==> v as nat == digits_value(p@),
        r is None ==> digits_value(p@) > u64::MAX,
{
    let n = p.unicode_len();
    let mut val: u64 = 0;
    let mut i: usize = 0;
    while i < n
        invariant
            n == p@.len(),
            i <= n,
            is_component(p@),
            val as nat == digits_value(p@.take(i as int)),
        decreases n - i,
    {
        let c = p.get_char(i);
        assert(is_digit(p@[i as int]));
        let d: u64 = (c as u32 - '0' as u32) as u64;
        proof {
            assert(p@.take(i as int + 1).drop_last() =~= p@.take(i as int));
            assert(p@.take(i as int + 1).last() == c);
        }
        match val.checked_mul(10) {
            Some(m) => match m.checked_add(d) {
                Some(v) => {
                    val = v;
                },
                None => {
                    proof {
                        lemma_digits_value_prefix(p@, i as int + 1, n as int);
                        assert(p@.take(n as int) =~= p@);
                    }
                    return None;
                },
            },
            None => {
                proof {
                    lemma_digits_value_prefix(p@, i as int + 1, n as int);
                    assert(p@.take(n as int) =~= p@);
                }
                return None;
            },
        }
        i = i + 1;
    }
    proof {
        assert(p@.take(n as int) =~= p@);
    }
    Some(val)
}

/// Whether `p` is a non-empty run of decimal digits.
fn check_component(p: &str) -> (r: bool)
    ensures
        r == is_component(p@),
{
    let n = p.unicode_len();
    if n == 0 {
        return false;
    }
    let mut i: usize = 0;
    while i < n
        invariant
            n == p@.len(),
            i <= n,
            forall|j: int| 0 <= j < i ==> is_digit(#[trigger] p@[j]),
        decreases n - i,
    {
        let c = p.get_char(i);
        if !('0' <= c && c <= '9') {
            return false;
        }
        i = i + 1;
    }
    true
}

/// Splits a version into its numeric components and its extension.
///
/// Fails with `BadVersion` exactly where `version` does not match the grammar.
pub fn split_version(version: &str) -> (r: Result<(Vec<String>, Option<String>), BldrError>)
    ensures
        match r {
            Ok((parts, ext)) => {
                &&& well_formed_version(version@)
                &&& parts@.len() == components(version@).len()
                &&& forall|i: int|
                    0 <= i < parts@.len() ==> #[trigger] parts@[i]@ == components(version@)[i]
                &&& match ext {
                    Some(e) => extension(version@) == Some(e@),
                    None => extension(version@) is None,
                }
            },
            Err(e) => !well_formed_version(version@) && e == BldrError::BadVersion,
        },
{
    let n = version.unicode_len();
    let mut k: usize = 0;
    while k < n && version.get_char(k) != '-'
        invariant
            n == version@.len(),
            k <= n,
            index_of_from(version@, '-', 0) == index_of_from(version@, '-', k as int),
        decreases n - k,
    {
        k = k + 1;
    }
    proof {
        lemma_index_of_from_bounds(version@, '-', k as int);
    }
    let numeric = substring(version, 0, k);
    assert(numeric@ =~= numeric_part(version@));
    let parts = split_str(numeric.as_str(), '.');
    let mut i: usize = 0;
    while i < parts.len()
        invariant
            parts@.len() == components(version@).len(),
            forall|j: int|
                0 <= j < parts@.len() ==> #[trigger] parts@[j]@ == components(version@)[j],
            i <= parts@.len(),
            forall|j: int| 0 <= j < i ==> is_component(#[trigger] components(version@)[j]),
        decreases parts@.len() - i,
    {
        if !check_component(parts[i].as_str()) {
            return Err(BldrError::BadVersion);
        }
        i = i + 1;
    }
    if k < n {
        let ext = substring(version, k + 1, n);
        assert(ext@ =~= version@.skip(k as int + 1));
        if ext.unicode_len() == 0 {
            return Err(BldrError::BadVersion);
        }
        Ok((parts, Some(ext)))
    } else {
        Ok((parts, None))
    }
}

/// Reads each component as a `u64`; `None` where one does not fit.
fn parse_components(parts: &Vec<String>) -> (r: Option<Vec<u64>>)
    requires
        forall|i: int| 0 <= i < parts@.len() ==> is_component(#[trigger] parts@[i]@),
    ensures
        match r {
            Some(v) => v@.len() == parts@.len() && forall|i: int|
                0 <= i < v@.len() ==> #[trigger] v@[i] as nat == digits_value(parts@[i]@),
            None => exists|i: int|
                0 <= i < parts@.len() && digits_value(#[trigger] parts@[i]@) > u64::MAX,
        },
{
    let mut out: Vec<u64> = Vec::new();
    let mut i: usize = 0;
    while i < parts.len()
        invariant
            forall|j: int| 0 <= j < parts@.len() ==> is_component(#[trigger] parts@[j]@),
            i <= parts@.len(),
            out@.len() == i,
            forall|j: int| 0 <= j < i ==> #[trigger] out@[j] as nat == digits_value(parts@[j]@),
        decreases parts@.len() - i,
    {
        match parse_component(parts[i].as_str()) {
            Some(v) => out.push(v),
            None => {
                assert(digits_value(parts@[i as int]@) > u64::MAX);
                return None;
            },
        }
        i = i + 1;
    }
    Some(out)
}

/// Compares numeric components, padding the shorter with zeros.
fn compare_parts(a: &Vec<u64>, b: &Vec<u64>) -> (r: Ordering)
    ensures
        r == compare_parts_from(as_nats(a@), as_nats(b@), 0),
{
    let ghost sa = as_nats(a@);
    let ghost sb = as_nats(b@);
    let mut i: usize = 0;
    while i < a.len() || i < b.len()
        invariant
            sa == as_nats(a@),
            sb == as_nats(b@),
            i <= a@.len() || i <= b@.len(),
            compare_parts_from(sa, sb, 0) == compare_parts_from(sa, sb, i as int),
        decreases a@.len() + b@.len() - i,
    {
        let x: u64 = if i < a.len() {
            a[i]
        } else {
            0
        };
        let y: u64 = if i < b.len() {
            b[i]
        } else {
            0
        };
        assert(x as nat == part_at(sa, i as int));
        assert(y as nat == part_at(sb, i as int));
        if x < y {
            return Ordering::Less;
        } else if x > y {
            return Ordering::Greater;
        }
        i = i + 1;
    }
    Ordering::Equal
}

/// Compares two texts by code point.
pub(crate) fn compare_text(a: &str, b: &str) -> (r: Ordering)
    ensures
        r == compare_text_from(a@, b@, 0),
{
    let n = a.unicode_len();
    let m = b.unicode_len();
    let mut i: usize = 0;
    while i < n && i < m
        invariant
            n == a@.len(),
            m == b@.len(),
            i <= n,
            i <= m,
            compare_text_from(a@, b@, 0) == compare_text_from(a@, b@, i as int),
        decreases n - i,
    {
        let x = a.get_char(i) as u32;
        let y = b.get_char(i) as u32;
        if x < y {
            return Ordering::Less;
        } else if x > y {
            return Ordering::Greater;
        }
        i = i + 1;
    }
    if i < n {
        Ordering::Greater
    } else if i < m {
        Ordering::Less
    } else {
        Ordering::Equal
    }
}

/// Compares two versions.
///
/// Fails with `BadVersion` exactly where either is not a valid version.
pub fn version_sort(a_version: &str, b_version: &str) -> (r: Result<Ordering, BldrError>)
    ensures
        match r {
            Ok(o) => valid_version(a_version@) && valid_version(b_version@) && o == version_order(
                a_version@,
                b_version@,
            ),
            Err(e) => !(valid_version(a_version@) && valid_version(b_version@)) && e
                == BldrError::BadVersion,
        },
{
    let (a_parts, a_ext) = match split_version(a_version) {
        Ok(s) => s,
        Err(e) => return Err(e),
    };
    let (b_parts, b_ext) = match split_version(b_version) {
        Ok(s) => s,
        Err(e) => return Err(e),
    };
    let a_nums = match parse_components(&a_parts) {
        Some(v) => v,
        None => return Err(BldrError::BadVersion),
    };
    let b_nums = match parse_components(&b_parts) {
        Some(v) => v,
        None => return Err(BldrError::BadVersion),
    };
    proof {
        assert forall|i: int| 0 <= i < components(a_version@).len() implies digits_value(
            #[trigger] components(a_version@)[i],
        ) <= u64::MAX by {
            assert(a_parts@[i]@ == components(a_version@)[i]);
            assert(a_nums@[i] as nat == digits_value(a_parts@[i]@));
        }
        assert forall|i: int| 0 <= i < components(b_version@).len() implies digits_value(
            #[trigger] components(b_version@)[i],
        ) <= u64::MAX by {
            assert(b_parts@[i]@ == components(b_version@)[i]);
            assert(b_nums@[i] as nat == digits_value(b_parts@[i]@));
        }
        assert(as_nats(a_nums@) =~= component_values(a_version@)) by {
            assert forall|i: int| 0 <= i < a_nums@.len() implies as_nats(a_nums@)[i]
                == component_values(a_version@)[i] by {
                assert(a_parts@[i]@ == components(a_version@)[i]);
            }
        }
        assert(as_nats(b_nums@) =~= component_values(b_version@)) by {
            assert forall|i: int| 0 <= i < b_nums@.len() implies as_nats(b_nums@)[i]
                == component_values(b_version@)[i] by {
                assert(b_parts@[i]@ == components(b_version@)[i]);
            }
        }
    }
    let o = compare_parts(&a_nums, &b_nums);
    match o {
        Ordering::Equal => {},
        _ => return Ok(o),
    }
    match (a_ext, b_ext) {
        (None, None) => Ok(Ordering::Equal),
        (None, Some(_)) => Ok(Ordering::Greater),
        (Some(_), None) => Ok(Ordering::Less),
        (Some(x), Some(y)) => Ok(compare_text(x.as_str(), y.as_str())),
    }
}

} // verus!
