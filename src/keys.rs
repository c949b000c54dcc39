//! Cache keys. Each part of a key is written after its length, so that no two
//! different inputs give one key: two scopes never share an entry, and a new
//! parser version never reads what an older one derived.
use vstd::prelude::*;

use crate::text::{decimal, digit, to_decimal};

verus! {

/// `part`, preceded by its length in decimal and a colon.
pub open spec fn framed(part: Seq<char>) -> Seq<char> {
    decimal(part.len()) + seq![':'] + part
}

/// The key of an object: its scope, the source, and the path or id within the source.
pub open spec fn object_key(scope: Seq<char>, source: Seq<char>, location: Seq<char>) -> Seq<char> {
    framed(scope) + framed(source) + location
}

/// The key of an artifact derived from the object with key `object` by the
/// parser of version `version`.
pub open spec fn derived_key(object: Seq<char>, version: nat) -> Seq<char> {
    decimal(version) + seq![':'] + object
}

fn framed_exec(part: &str) -> (r: String)
    ensures
        r@ == framed(part@),
{
    proof {
        reveal_strlit(":");
    }
    assert(":"@ =~= seq![':']);
    let n = part.unicode_len();
    to_decimal(n as u64).concat(":").concat(part)
}

/// The key of the object at `location` in source `source`, for scope `scope`.
pub fn object_cache_key(scope: &str, source: &str, location: &str) -> (r: String)
    ensures
        r@ == object_key(scope@, source@, location@),
{
    let a = framed_exec(scope);
    let b = framed_exec(source);
    let r = a.concat(b.as_str()).concat(location);
    r
}

/// The key of what version `parser_version` of a parser derives from the
/// object with key `object`.
pub fn derived_cache_key(object: &str, parser_version: u32) -> (r: String)
    ensures
        r@ == derived_key(object@, parser_version as nat),
{
    proof {
        reveal_strlit(":");
    }
    assert(":"@ =~= seq![':']);
    to_decimal(parser_version as u64).concat(":").concat(object)
}

proof fn lemma_decimal_digits(n: nat)
    ensures
        decimal(n).len() >= 1,
        n >= 10 ==> decimal(n).len() >= 2,
        forall|i: int| 0 <= i < decimal(n).len() ==> #[trigger] decimal(n)[i] != ':',
    decreases n,
{
    if n >= 10 {
        lemma_decimal_digits(n / 10);
        let d = decimal(n / 10);
        assert forall|i: int| 0 <= i < decimal(n).len() implies #[trigger] decimal(n)[i] != ':' by {
            if i < d.len() {
                assert(decimal(n)[i] == d[i]);
            }
        }
    }
}

proof fn lemma_digit_injective(a: nat, b: nat)
    requires
        a < 10,
        b < 10,
        digit(a) == digit(b),
    ensures
        a == b,
{
}

proof fn lemma_decimal_injective(a: nat, b: nat)
    requires
        decimal(a) == decimal(b),
    ensures
        a == b,
    decreases a,
{
    lemma_decimal_digits(a);
    lemma_decimal_digits(b);
    if a < 10 && b < 10 {
        assert(decimal(a)[0] == digit(a));
        assert(decimal(b)[0] == digit(b));
        lemma_digit_injective(a, b);
    } else if a >= 10 && b >= 10 {
        let da = decimal(a);
        assert(da.last() == digit(a % 10));
        assert(decimal(b).last() == digit(b % 10));
        lemma_digit_injective(a % 10, b % 10);
        assert(da.drop_last() =~= decimal(a / 10));
        assert(decimal(b).drop_last() =~= decimal(b / 10));
        lemma_decimal_injective(a / 10, b / 10);
        assert(a == 10 * (a / 10) + a % 10);
        assert(b == 10 * (b / 10) + b % 10);
    }
}

/// Two sequences split at a colon that their first parts do not hold split
/// alike.
proof fn lemma_split_at_colon(d1: Seq<char>, x1: Seq<char>, d2: Seq<char>, x2: Seq<char>)
    requires
        forall|i: int| 0 <= i < d1.len() ==> d1[i] != ':',
        forall|i: int| 0 <= i < d2.len() ==> d2[i] != ':',
        d1 + seq![':'] + x1 == d2 + seq![':'] + x2,
    ensures
        d1 == d2,
        x1 == x2,
{
    let s = d1 + seq![':'] + x1;
    let t = d2 + seq![':'] + x2;
    if d1.len() < d2.len() {
        assert(s[d1.len() as int] == ':');
        assert(t[d1.len() as int] == d2[d1.len() as int]);
    } else if d2.len() < d1.len() {
        assert(t[d2.len() as int] == ':');
        assert(s[d2.len() as int] == d1[d2.len() as int]);
    }
    assert(d1 =~= s.subrange(0, d1.len() as int));
    assert(d2 =~= t.subrange(0, d2.len() as int));
    assert(x1 =~= s.subrange(d1.len() as int + 1, s.len() as int));
    assert(x2 =~= t.subrange(d2.len() as int + 1, t.len() as int));
}

proof fn lemma_framed_unique(a1: Seq<char>, r1: Seq<char>, a2: Seq<char>, r2: Seq<char>)
    requires
        framed(a1) + r1 == framed(a2) + r2,
    ensures
        a1 == a2,
        r1 == r2,
{
    lemma_decimal_digits(a1.len());
    lemma_decimal_digits(a2.len());
    let d1 = decimal(a1.len());
    let d2 = decimal(a2.len());
    assert(framed(a1) + r1 =~= d1 + seq![':'] + (a1 + r1));
    assert(framed(a2) + r2 =~= d2 + seq![':'] + (a2 + r2));
    lemma_split_at_colon(d1, a1 + r1, d2, a2 + r2);
    lemma_decimal_injective(a1.len(), a2.len());
    assert(a1 =~= (a1 + r1).subrange(0, a1.len() as int));
    assert(a2 =~= (a2 + r2).subrange(0, a2.len() as int));
    assert(r1 =~= (a1 + r1).subrange(a1.len() as int, (a1 + r1).len() as int));
    assert(r2 =~= (a2 + r2).subrange(a2.len() as int, (a2 + r2).len() as int));
}

/// Objects of different scopes, sources or locations never share a key: in
/// particular two scopes never share a cache entry.
pub proof fn lemma_object_keys_distinct(
    scope1: Seq<char>,
    source1: Seq<char>,
    location1: Seq<char>,
    scope2: Seq<char>,
    source2: Seq<char>,
    location2: Seq<char>,
)
    requires
        scope1 != scope2 || source1 != source2 || location1 != location2,
    ensures
        object_key(scope1, source1, location1) != object_key(scope2, source2, location2),
{
    if object_key(scope1, source1, location1) == object_key(scope2, source2, location2) {
        assert(object_key(scope1, source1, location1) =~= framed(scope1) + (framed(source1) + location1));
        assert(object_key(scope2, source2, location2) =~= framed(scope2) + (framed(source2) + location2));
        lemma_framed_unique(scope1, framed(source1) + location1, scope2, framed(source2) + location2);
        lemma_framed_unique(source1, location1, source2, location2);
    }
}

/// Artifacts derived by different parser versions, or from different
/// objects, never share a key.
pub proof fn lemma_derived_keys_distinct(object1: Seq<char>, version1: nat, object2: Seq<char>, version2: nat)
    requires
        object1 != object2 || version1 != version2,
    ensures
        derived_key(object1, version1) != derived_key(object2, version2),
{
    if derived_key(object1, version1) == derived_key(object2, version2) {
        lemma_decimal_digits(version1);
        lemma_decimal_digits(version2);
        lemma_split_at_colon(decimal(version1), object1, decimal(version2), object2);
        lemma_decimal_injective(version1, version2);
    }
}

} // verus!
