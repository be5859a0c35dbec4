//! Ordering of aircraft profiles in the menu: aircraft first, spacecraft and
//! satellites last, alphabetical by name within each group.

use vstd::prelude::*;
use crate::text::{chars_vec, str_eq};

verus! {

/// ASCII lower-casing of one character; other characters are unchanged.
pub open spec fn ascii_lower(c: char) -> int {
    if 'A' <= c && c <= 'Z' {
        (c as u32) as int + 32
    } else {
        (c as u32) as int
    }
}

/// Equality ignoring ASCII case, against a lower-case ASCII word.
pub open spec fn eq_ignore_case(s: Seq<char>, word: Seq<char>) -> bool {
    s.len() == word.len() && forall|i: int| 0 <= i < s.len() ==> ascii_lower(#[trigger] s[i]) == (word[i] as u32) as int
}

fn eq_ignore_ascii_case_with(s: &str, word: &str) -> (r: bool)
    ensures
        r == eq_ignore_case(s@, word@),
{
    let a = chars_vec(s);
    let b = chars_vec(word);
    if a.len() != b.len() {
        return false;
    }
    let mut i: usize = 0;
    while i < a.len()
        invariant
            a@ == s@,
            b@ == word@,
            a.len() == b.len(),
            i <= a.len(),
            forall|j: int| 0 <= j < i ==> ascii_lower(#[trigger] s@[j]) == (word@[j] as u32) as int,
        decreases a.len() - i,
    {
        let c = a[i];
        let same = if 'A' <= c && c <= 'Z' {
            (c as u32) + 32 == (b[i] as u32)
        } else {
            (c as u32) == (b[i] as u32)
        };
        if !same {
            return false;
        }
        proof {
            assert(a@[i as int] == s@[i as int]);
            assert(b@[i as int] == word@[i as int]);
            assert(ascii_lower(s@[i as int]) == (word@[i as int] as u32) as int);
        }
        i = i + 1;
    }
    true
}

/// Whether a profile category is a space category ("spacecraft" or "satellite", any case).
pub open spec fn is_space_category_s(category: Seq<char>) -> bool {
    eq_ignore_case(category, "spacecraft"@) || eq_ignore_case(category, "satellite"@)
}

/// Whether a profile category is a space category ("spacecraft" or "satellite", any case).
pub fn is_space_category(category: &str) -> (r: bool)
    ensures
        r == is_space_category_s(category@),
{
    eq_ignore_ascii_case_with(category, "spacecraft") || eq_ignore_ascii_case_with(category, "satellite")
}

/// Lexicographic order on names by code point (the byte order of their UTF-8).
pub open spec fn name_lt(a: Seq<char>, b: Seq<char>) -> bool
    decreases a.len(),
{
    if a.len() == 0 {
        b.len() > 0
    } else if b.len() == 0 {
        false
    } else if a[0] != b[0] {
        a[0] < b[0]
    } else {
        name_lt(a.drop_first(), b.drop_first())
    }
}

proof fn lemma_name_lt_irreflexive(a: Seq<char>)
    ensures
        !name_lt(a, a),
    decreases a.len(),
{
    if a.len() > 0 {
        lemma_name_lt_irreflexive(a.drop_first());
    }
}

proof fn lemma_name_lt_transitive(a: Seq<char>, b: Seq<char>, c: Seq<char>)
    requires
        name_lt(a, b),
        name_lt(b, c),
    ensures
        name_lt(a, c),
    decreases a.len(),
{
    if a.len() > 0 && b.len() > 0 && c.len() > 0 {
        if a[0] == b[0] && b[0] == c[0] {
            lemma_name_lt_transitive(a.drop_first(), b.drop_first(), c.drop_first());
        }
    }
}

proof fn lemma_name_lt_total(a: Seq<char>, b: Seq<char>)
    ensures
        a == b || name_lt(a, b) || name_lt(b, a),
    decreases a.len(),
{
    if a.len() > 0 && b.len() > 0 && a[0] == b[0] {
        lemma_name_lt_total(a.drop_first(), b.drop_first());
        if a.drop_first() == b.drop_first() {
            assert(a =~= seq![a[0]] + a.drop_first());
            assert(b =~= seq![b[0]] + b.drop_first());
        }
    } else if a.len() == 0 && b.len() == 0 {
        assert(a =~= b);
    }
}

/// What a profile is sorted by: whether it is a space vehicle, then its name.
pub struct ProfileKey {
    pub is_space: bool,
    pub name: String,
}

/// Strict order of profile keys: aircraft before space vehicles, then by name.
pub open spec fn key_lt(x: (bool, Seq<char>), y: (bool, Seq<char>)) -> bool {
    (!x.0 && y.0) || (x.0 == y.0 && name_lt(x.1, y.1))
}

pub open spec fn key_of(k: ProfileKey) -> (bool, Seq<char>) {
    (k.is_space, k.name@)
}

proof fn lemma_key_lt_transitive(x: (bool, Seq<char>), y: (bool, Seq<char>), z: (bool, Seq<char>))
    requires
        key_lt(x, y),
        key_lt(y, z),
    ensures
        key_lt(x, z),
{
    if x.0 == y.0 && y.0 == z.0 {
        lemma_name_lt_transitive(x.1, y.1, z.1);
    }
}

proof fn lemma_key_le_transitive(x: (bool, Seq<char>), y: (bool, Seq<char>), z: (bool, Seq<char>))
    requires
        !key_lt(y, x),
        !key_lt(z, y),
    ensures
        !key_lt(z, x),
{
    lemma_name_lt_total(x.1, y.1);
    lemma_name_lt_total(y.1, z.1);
    lemma_name_lt_total(x.1, z.1);
    if key_lt(z, x) {
        if x.1 == y.1 && x.0 == y.0 {
        } else if key_lt(x, y) {
            lemma_key_lt_transitive(z, x, y);
        }
        if y.1 == z.1 && y.0 == z.0 {
        } else if key_lt(y, z) {
            if key_lt(x, y) {
                lemma_key_lt_transitive(x, y, z);
                lemma_key_lt_transitive(z, x, z);
                lemma_name_lt_irreflexive(z.1);
            } else {
                lemma_key_lt_transitive(z, x, z);
                lemma_name_lt_irreflexive(z.1);
            }
        }
    }
}

fn name_less(a: &str, b: &str) -> (r: bool)
    ensures
        r == name_lt(a@, b@),
{
    let x = chars_vec(a);
    let y = chars_vec(b);
    let mut i: usize = 0;
    proof {
        assert(a@.skip(0) =~= a@);
        assert(b@.skip(0) =~= b@);
    }
    while i < x.len() && i < y.len() && x[i] == y[i]
        invariant
            x@ == a@,
            y@ == b@,
            i <= x.len(),
            i <= y.len(),
            name_lt(a@, b@) == name_lt(a@.skip(i as int), b@.skip(i as int)),
        decreases x.len() - i,
    {
        proof {
            let sa = a@.skip(i as int);
            let sb = b@.skip(i as int);
            assert(sa.drop_first() =~= a@.skip(i + 1));
            assert(sb.drop_first() =~= b@.skip(i + 1));
        }
        i = i + 1;
    }
    if i == x.len() {
        i < y.len()
    } else if i == y.len() {
        false
    } else {
        proof {
            assert(a@.skip(i as int)[0] == a@[i as int]);
            assert(b@.skip(i as int)[0] == b@[i as int]);
        }
        x[i] < y[i]
    }
}

fn key_less(x: &ProfileKey, y: &ProfileKey) -> (r: bool)
    ensures
        r == key_lt(key_of(*x), key_of(*y)),
{
    (!x.is_space && y.is_space) || (x.is_space == y.is_space && name_less(x.name.as_str(), y.name.as_str()))
}

/// `order` lists each of `0..n` exactly once.
pub open spec fn is_permutation(order: Seq<usize>, n: int) -> bool {
    &&& order.len() == n
    &&& forall|p: int| 0 <= p < order.len() ==> #[trigger] order[p] < n
    &&& forall|p: int, q: int| 0 <= p < q < order.len() ==> order[p] != order[q]
}

/// Listing the keys in `order` puts them in non-decreasing order, and keys that
/// compare equal keep their original relative order.
pub open spec fn sorted_stably(keys: Seq<ProfileKey>, order: Seq<usize>) -> bool {
    &&& forall|p: int, q: int|
        0 <= p < q < order.len() ==> !key_lt(
            key_of(keys[#[trigger] order[q] as int]),
            key_of(keys[#[trigger] order[p] as int]),
        )
    &&& forall|p: int, q: int|
        0 <= p < q < order.len() && !key_lt(
            key_of(keys[#[trigger] order[p] as int]),
            key_of(keys[#[trigger] order[q] as int]),
        ) ==> order[p] < order[q]
}

/// The order in which the menu lists the profiles with these keys, as a stable sort
/// by (space vehicle, name) gives it: `r[p]` is the index of the profile shown `p`-th.
pub fn profile_order(keys: &Vec<ProfileKey>) -> (r: Vec<usize>)
    ensures
        is_permutation(r@, keys@.len() as int),
        sorted_stably(keys@, r@),
{
    let n = keys.len();
    let mut order: Vec<usize> = Vec::new();
    let mut i: usize = 0;
    while i < n
        invariant
            n == keys@.len(),
            i <= n,
            is_permutation(order@, i as int),
            sorted_stably(keys@, order@),
        decreases n - i,
    {
        let mut pos = order.len();
        while pos > 0 && key_less(&keys[i], &keys[order[pos - 1]])
            invariant
                n == keys@.len(),
                i < n,
                is_permutation(order@, i as int),
                pos <= order@.len(),
                forall|q: int|
                    pos <= q < order@.len() ==> key_lt(
                        key_of(keys@[i as int]),
                        key_of(keys@[#[trigger] order@[q] as int]),
                    ),
            decreases pos,
        {
            pos = pos - 1;
        }
        let ghost old_order = order@;
        proof {
            // Everything before `pos` is no greater than the new key.
            assert forall|p: int| 0 <= p < pos implies !key_lt(
                key_of(keys@[i as int]),
                key_of(keys@[#[trigger] old_order[p] as int]),
            ) by {
                if p < pos - 1 {
                    lemma_key_le_transitive(
                        key_of(keys@[old_order[p] as int]),
                        key_of(keys@[old_order[pos - 1] as int]),
                        key_of(keys@[i as int]),
                    );
                }
            }
        }
        order.insert(pos, i);
        proof {
            assert forall|p: int| 0 <= p < order@.len() implies #[trigger] order@[p] < i + 1 by {
                if p < pos {
                    assert(order@[p] == old_order[p]);
                } else if p > pos {
                    assert(order@[p] == old_order[p - 1]);
                }
            }
            assert forall|p: int, q: int| 0 <= p < q < order@.len() implies order@[p] != order@[q] by {
                if p < pos && q < pos {
                } else if p < pos && q == pos {
                    assert(old_order[p] < i);
                } else if p < pos && q > pos {
                    assert(order@[q] == old_order[q - 1]);
                } else if p == pos {
                    assert(order@[q] == old_order[q - 1]);
                    assert(old_order[q - 1] < i);
                } else {
                    assert(order@[p] == old_order[p - 1]);
                    assert(order@[q] == old_order[q - 1]);
                }
            }
            assert forall|p: int, q: int| 0 <= p < q < order@.len() implies !key_lt(
                key_of(keys@[#[trigger] order@[q] as int]),
                key_of(keys@[#[trigger] order@[p] as int]),
            ) by {
                let kp = if p < pos { old_order[p] } else if p == pos { i } else { old_order[p - 1] };
                let kq = if q < pos { old_order[q] } else if q == pos { i } else { old_order[q - 1] };
                assert(order@[p] == kp);
                assert(order@[q] == kq);
                if p < pos && q < pos {
                } else if p < pos && q == pos {
                } else if p < pos && q > pos {
                    assert(old_order[p] == old_order[p]);
                } else if p == pos {
                    let x = key_of(keys@[i as int]);
                    let y = key_of(keys@[old_order[q - 1] as int]);
                    if key_lt(y, x) {
                        lemma_key_lt_transitive(x, y, x);
                        lemma_name_lt_irreflexive(x.1);
                    }
                } else {
                }
            }
            assert forall|p: int, q: int| 0 <= p < q < order@.len() && !key_lt(
                key_of(keys@[#[trigger] order@[p] as int]),
                key_of(keys@[#[trigger] order@[q] as int]),
            ) implies order@[p] < order@[q] by {
                let kp = if p < pos { old_order[p] } else if p == pos { i } else { old_order[p - 1] };
                let kq = if q < pos { old_order[q] } else if q == pos { i } else { old_order[q - 1] };
                assert(order@[p] == kp);
                assert(order@[q] == kq);
                if p < pos && q == pos {
                    assert(old_order[p] < i);
                } else if p == pos {
                    assert(key_lt(key_of(keys@[i as int]), key_of(keys@[old_order[q - 1] as int])));
                }
            }
        }
        i = i + 1;
    }
    order
}

/// Index of the first profile whose identifier (slug or name) is `wanted`.
pub fn find_profile(ids: &Vec<String>, wanted: &str) -> (r: Option<usize>)
    ensures
        match r {
            Some(i) => i < ids@.len() && ids@[i as int]@ == wanted@ && forall|j: int|
                0 <= j < i ==> #[trigger] ids@[j]@ != wanted@,
            None => forall|j: int| 0 <= j < ids@.len() ==> #[trigger] ids@[j]@ != wanted@,
        },
{
    let mut i: usize = 0;
    while i < ids.len()
        invariant
            i <= ids@.len(),
            forall|j: int| 0 <= j < i ==> #[trigger] ids@[j]@ != wanted@,
        decreases ids@.len() - i,
    {
        if str_eq(ids[i].as_str(), wanted) {
            return Some(i);
        }
        i = i + 1;
    }
    None
}

/// The profile to fly with the aircraft `slug`: the first profile with that slug, or
/// the first profile when none has it; None when there are no profiles.
pub fn profile_for_flight(slugs: &Vec<String>, slug: &str) -> (r: Option<usize>)
    ensures
        slugs@.len() == 0 ==> r.is_none(),
        (exists|j: int| 0 <= j < slugs@.len() && #[trigger] slugs@[j]@ == slug@) ==> match r {
            Some(i) => i < slugs@.len() && slugs@[i as int]@ == slug@ && forall|j: int|
                0 <= j < i ==> #[trigger] slugs@[j]@ != slug@,
            None => false,
        },
        (forall|j: int| 0 <= j < slugs@.len() ==> #[trigger] slugs@[j]@ != slug@) && slugs@.len() > 0
            ==> r == Some(0usize),
{
    match find_profile(slugs, slug) {
        Some(i) => Some(i),
        None => if slugs.len() > 0 {
            Some(0)
        } else {
            None
        },
    }
}

/// `sub` occurs in `s` at position `i`.
pub open spec fn occurs_at(s: Seq<char>, sub: Seq<char>, i: int) -> bool {
    0 <= i && i + sub.len() <= s.len() && s.subrange(i, i + sub.len()) == sub
}

/// `sub` occurs somewhere in `s`.
pub open spec fn contains_text(s: Seq<char>, sub: Seq<char>) -> bool {
    exists|i: int| #[trigger] occurs_at(s, sub, i)
}

/// Whether `sub` occurs in `s`.
pub fn text_contains(s: &str, sub: &str) -> (r: bool)
    ensures
        r == contains_text(s@, sub@),
{
    let a = chars_vec(s);
    let b = chars_vec(sub);
    if b.len() > a.len() {
        proof {
            assert forall|i: int| !occurs_at(s@, sub@, i) by {}
        }
        return false;
    }
    let mut i: usize = 0;
    while i <= a.len() - b.len()
        invariant
            a@ == s@,
            b@ == sub@,
            b@.len() <= a@.len(),
            i <= a@.len() - b@.len() + 1,
            forall|k: int| 0 <= k < i ==> !#[trigger] occurs_at(s@, sub@, k),
        decreases a@.len() - b@.len() + 1 - i,
    {
        let mut j: usize = 0;
        let mut same = true;
        while j < b.len() && same
            invariant
                a@ == s@,
                b@ == sub@,
                i + b@.len() <= a@.len(),
                a@.len() == a.len(),
                j <= b@.len(),
                same ==> forall|k: int| 0 <= k < j ==> a@[i + k] == b@[k],
                !same ==> exists|k: int| 0 <= k < b@.len() && a@[i + k] != b@[k],
            decreases b@.len() - j + (if same { 1int } else { 0int }),
        {
            assert(i + j < a@.len());
            let k: usize = i + j;
            if a[k] != b[j] {
                same = false;
            } else {
                j = j + 1;
            }
        }
        if same {
            proof {
                assert(s@.subrange(i as int, i + sub@.len()) =~= sub@);
                assert(occurs_at(s@, sub@, i as int));
            }
            return true;
        }
        proof {
            let k = choose|k: int| 0 <= k < b@.len() && a@[i + k] != b@[k];
            assert(s@.subrange(i as int, i + sub@.len())[k] != sub@[k]);
        }
        i = i + 1;
    }
    proof {
        assert forall|k: int| !occurs_at(s@, sub@, k) by {
            if 0 <= k && k + sub@.len() <= s@.len() {
                assert(k < i);
            }
        }
    }
    false
}

/// A landing gear leg steers when its name mentions the tail or the nose.
pub fn gear_is_steerable(name: &str) -> (r: bool)
    ensures
        r == (contains_text(name@, "tail"@) || contains_text(name@, "nose"@)),
{
    text_contains(name, "tail") || text_contains(name, "nose")
}

} // verus!
