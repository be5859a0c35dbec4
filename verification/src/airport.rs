//! Deterministic airport layout decisions: hashing an airport's identifier, the
//! heading a runway number stands for, and which buildings an airport gets.

use vstd::prelude::*;
use std::collections::hash_map::DefaultHasher;
use std::hash::{Hash, Hasher};
use vstd::std_specs::hash::DefaultHasherAdditionalSpecFns;
use vstd::string::StringSliceAdditionalSpecFns;
use crate::text::{str_eq, chars_vec, is_digit, digit_value};

verus! {

/// The eight bytes of `x`, least significant first.
pub open spec fn le_bytes_u64(x: u64) -> Seq<u8> {
    seq![
        (x & 0xff) as u8,
        ((x >> 8u64) & 0xff) as u8,
        ((x >> 16u64) & 0xff) as u8,
        ((x >> 24u64) & 0xff) as u8,
        ((x >> 32u64) & 0xff) as u8,
        ((x >> 40u64) & 0xff) as u8,
        ((x >> 48u64) & 0xff) as u8,
        ((x >> 56u64) & 0xff) as u8,
    ]
}

/// The four bytes of `x`, least significant first.
pub open spec fn le_bytes_u32(x: u32) -> Seq<u8> {
    seq![
        (x & 0xff) as u8,
        ((x >> 8u32) & 0xff) as u8,
        ((x >> 16u32) & 0xff) as u8,
        ((x >> 24u32) & 0xff) as u8,
    ]
}

/// `x`'s bytes in one of the two byte orders a machine may have.
pub open spec fn native_bytes_u64(x: u64, b: Seq<u8>) -> bool {
    b == le_bytes_u64(x) || b == le_bytes_u64(x).reverse()
}

/// `x`'s bytes in one of the two byte orders a machine may have.
pub open spec fn native_bytes_u32(x: u32, b: Seq<u8>) -> bool {
    b == le_bytes_u32(x) || b == le_bytes_u32(x).reverse()
}

/// `u64::hash` into a `DefaultHasher`: one write of `x.to_ne_bytes()`, the eight bytes
/// of `x` in the machine's byte order (little- or big-endian; which one is not stated).
#[verifier::external_body]
fn hash_u64_into(x: u64, h: &mut DefaultHasher)
    ensures
        final(h)@.len() == old(h)@.len() + 1,
        final(h)@.take(old(h)@.len() as int) == old(h)@,
        native_bytes_u64(x, final(h)@.last()),
{
    x.hash(h)
}

/// `u32::hash` into a `DefaultHasher`: one write of `x.to_ne_bytes()`, the four bytes
/// of `x` in the machine's byte order (little- or big-endian; which one is not stated).
#[verifier::external_body]
fn hash_u32_into(x: u32, h: &mut DefaultHasher)
    ensures
        final(h)@.len() == old(h)@.len() + 1,
        final(h)@.take(old(h)@.len() as int) == old(h)@,
        native_bytes_u32(x, final(h)@.last()),
{
    x.hash(h)
}

/// Deterministic hash of an airport identifier: the identifier's bytes and the
/// terminating 0xFF byte that `str`'s `Hash` writes, fed to a fresh `DefaultHasher`.
pub fn ident_hash(ident: &str) -> (r: u64)
    ensures
        r == DefaultHasher::spec_finish(seq![ident.spec_bytes(), seq![0xffu8]]),
{
    let mut h = DefaultHasher::new();
    h.write(ident.as_bytes());
    let end: [u8; 1] = [0xffu8];
    h.write(&end);
    proof {
        assert(end@ =~= seq![0xffu8]);
        assert(h@ =~= seq![ident.spec_bytes(), seq![0xffu8]]);
    }
    h.finish()
}

/// Hash of a base hash and an index, for seeding per-building choices: `base` and then
/// `index` written in the machine's byte order to a fresh `DefaultHasher`.
pub fn sub_hash(base: u64, index: u32) -> (r: u64)
    ensures
        exists|a: Seq<u8>, b: Seq<u8>|
            native_bytes_u64(base, a) && native_bytes_u32(index, b) && r
                == DefaultHasher::spec_finish(#[trigger] seq![a, b]),
{
    let mut h = DefaultHasher::new();
    hash_u64_into(base, &mut h);
    hash_u32_into(index, &mut h);
    proof {
        let a = h@[0];
        let b = h@[1];
        assert(h@ =~= seq![a, b]);
    }
    h.finish()
}

/// The leading ASCII digits of `s`.
pub open spec fn digit_prefix(s: Seq<char>) -> Seq<char>
    decreases s.len(),
{
    if s.len() > 0 && is_digit(s[0]) {
        seq![s[0]] + digit_prefix(s.drop_first())
    } else {
        Seq::empty()
    }
}

/// Value of a run of ASCII digits.
pub open spec fn decimal_value(ds: Seq<char>) -> nat
    decreases ds.len(),
{
    if ds.len() == 0 {
        0
    } else {
        decimal_value(ds.drop_last()) * 10 + digit_value(ds.last())
    }
}

/// Heading (degrees) that a runway identifier's number stands for: "09L" -> 90.
/// None unless the identifier starts with a number from 1 to 36.
pub open spec fn runway_number_heading_s(ident: Seq<char>) -> Option<nat> {
    let ds = digit_prefix(ident);
    if ds.len() > 0 && 1 <= decimal_value(ds) <= 36 {
        Some(decimal_value(ds) * 10)
    } else {
        None
    }
}

proof fn lemma_digit_prefix(s: Seq<char>, k: int)
    requires
        0 <= k <= s.len(),
        forall|j: int| 0 <= j < k ==> is_digit(#[trigger] s[j]),
        k == s.len() || !is_digit(s[k]),
    ensures
        digit_prefix(s) == s.take(k),
    decreases k,
{
    if k == 0 {
        assert(s.take(0) =~= Seq::<char>::empty());
    } else {
        lemma_digit_prefix(s.drop_first(), k - 1);
        assert(seq![s[0]] + s.drop_first().take(k - 1) =~= s.take(k));
    }
}

/// Heading from a runway's identifier when the data gives no heading: the number
/// it starts with, times ten, if that number is a runway number (1 to 36).
pub fn runway_number_heading(ident: &str) -> (r: Option<u32>)
    ensures
        match runway_number_heading_s(ident@) {
            Some(h) => r == Some(h as u32),
            None => r.is_none(),
        },
{
    let c = chars_vec(ident);
    let mut k: usize = 0;
    let mut v: u32 = 0;
    while k < c.len() && '0' <= c[k] && c[k] <= '9'
        invariant
            c@ == ident@,
            k <= c.len(),
            forall|j: int| 0 <= j < k ==> is_digit(#[trigger] ident@[j]),
            decimal_value(ident@.take(k as int)) <= 36 ==> v == decimal_value(ident@.take(k as int)),
            decimal_value(ident@.take(k as int)) > 36 ==> v == 37,
        decreases c.len() - k,
    {
        proof {
            assert(ident@.take(k + 1).drop_last() =~= ident@.take(k as int));
        }
        let d = (c[k] as u32) - ('0' as u32);
        if v <= 36 {
            let next = v * 10 + d;
            v = if next > 36 { 37 } else { next };
        }
        k = k + 1;
    }
    proof {
        lemma_digit_prefix(ident@, k as int);
    }
    if k > 0 && v >= 1 && v <= 36 {
        Some(v * 10)
    } else {
        None
    }
}

/// Kinds of buildings placed around an airport, in placement order.
#[derive(Clone, Copy, Debug, PartialEq, Eq, Structural)]
pub enum BuildingKind {
    AtcTower,
    /// 45 x 80 m hangar
    LargeHangar,
    /// 40 x 70 m hangar
    SmallHangar,
    Admin,
    /// The `i`-th auxiliary building, sized from the airport's hash.
    Aux(u32),
}

/// Numbers of large hangars, small hangars and admin buildings by airport size class.
pub open spec fn building_counts_s(airport_type: Seq<char>) -> (nat, nat, nat) {
    if airport_type == "large_airport"@ {
        (6, 4, 8)
    } else if airport_type == "medium_airport"@ {
        (2, 2, 1)
    } else {
        (1, 1, 1)
    }
}

/// Numbers of large hangars, small hangars and admin buildings by airport size class.
pub fn building_counts(airport_type: &str) -> (r: (u32, u32, u32))
    ensures
        (r.0 as nat, r.1 as nat, r.2 as nat) == building_counts_s(airport_type@),
{
    if str_eq(airport_type, "large_airport") {
        (6, 4, 8)
    } else if str_eq(airport_type, "medium_airport") {
        (2, 2, 1)
    } else {
        (1, 1, 1)
    }
}

/// Number of auxiliary buildings (1 to 32) seeded by the identifier hash.
pub fn aux_building_count(h: u64) -> (r: u32)
    ensures
        r == (h / 256) % 32 + 1,
        1 <= r <= 32,
{
    assert((h >> 8u64) == h / 256) by (bit_vector);
    ((h >> 8) % 32 + 1) as u32
}

/// Whether the building cluster goes on the positive side of the main runway.
pub fn building_side_positive(h: u64) -> (r: bool)
    ensures
        r == (h % 2 == 0),
{
    h % 2 == 0
}

/// The buildings to place, in order: the ATC tower, then the hangars and admin
/// buildings for the airport's size class, then the auxiliary buildings.
pub open spec fn building_plan_s(airport_type: Seq<char>, h: u64) -> Seq<BuildingKind> {
    let (n1, n2, n3) = building_counts_s(airport_type);
    let n_aux = (h / 256) % 32 + 1;
    seq![BuildingKind::AtcTower] + Seq::new(n1, |i: int| BuildingKind::LargeHangar) + Seq::new(
        n2,
        |i: int| BuildingKind::SmallHangar,
    ) + Seq::new(n3, |i: int| BuildingKind::Admin) + Seq::new(
        n_aux as nat,
        |i: int| BuildingKind::Aux(i as u32),
    )
}

fn push_n(v: &mut Vec<BuildingKind>, kind: BuildingKind, n: u32)
    ensures
        final(v)@ == old(v)@ + Seq::new(n as nat, |i: int| kind),
{
    let mut i: u32 = 0;
    while i < n
        invariant
            i <= n,
            v@ == old(v)@ + Seq::new(i as nat, |j: int| kind),
        decreases n - i,
    {
        v.push(kind);
        i = i + 1;
        proof {
            assert(Seq::new(i as nat, |j: int| kind) =~= Seq::new((i - 1) as nat, |j: int| kind).push(kind));
        }
    }
}

/// The buildings to place around an airport of the given type and identifier hash.
pub fn building_plan(airport_type: &str, h: u64) -> (r: Vec<BuildingKind>)
    ensures
        r@ == building_plan_s(airport_type@, h),
{
    let (n1, n2, n3) = building_counts(airport_type);
    let n_aux = aux_building_count(h);
    let mut v: Vec<BuildingKind> = Vec::new();
    v.push(BuildingKind::AtcTower);
    push_n(&mut v, BuildingKind::LargeHangar, n1);
    push_n(&mut v, BuildingKind::SmallHangar, n2);
    push_n(&mut v, BuildingKind::Admin, n3);
    let ghost before = v@;
    let mut i: u32 = 0;
    while i < n_aux
        invariant
            i <= n_aux,
            v@ == before + Seq::new(i as nat, |j: int| BuildingKind::Aux(j as u32)),
        decreases n_aux - i,
    {
        v.push(BuildingKind::Aux(i));
        i = i + 1;
        proof {
            assert(Seq::new(i as nat, |j: int| BuildingKind::Aux(j as u32)) =~= Seq::new(
                (i - 1) as nat,
                |j: int| BuildingKind::Aux(j as u32),
            ).push(BuildingKind::Aux((i - 1) as u32)));
        }
    }
    proof {
        assert(v@ =~= building_plan_s(airport_type@, h));
    }
    v
}

/// Whether an airport of this type gets scenery: heliports and closed airports do not.
pub fn airport_generated(airport_type: &str) -> (r: bool)
    ensures
        r == (airport_type@ != "heliport"@ && airport_type@ != "closed"@),
{
    !str_eq(airport_type, "heliport") && !str_eq(airport_type, "closed")
}

// ── Parallel runway groups ──

/// Two runway headings (tenths of a degree, in `[0, 3600)`) are parallel when they are
/// less than 5° apart, going round the compass either way.
pub open spec fn headings_parallel(a: int, b: int) -> bool {
    let d = (a - b + 5400) % 3600 - 1800;
    -50 < d < 50
}

/// Index of the first group heading in `heads` parallel to `h`; `heads.len()` when there
/// is none.
pub open spec fn first_parallel(heads: Seq<int>, h: int) -> int
    decreases heads.len(),
{
    if heads.len() == 0 {
        0
    } else if headings_parallel(h, heads[0]) {
        0
    } else {
        1 + first_parallel(heads.drop_first(), h)
    }
}

/// Grouping of runways by heading, taken in order: a runway joins the first group whose
/// heading is parallel to its own, or starts a new group with its heading. Returns the
/// group headings and, for each runway, the index of its group. Headings are in
/// tenths of a degree and taken modulo 3600.
pub open spec fn runway_grouping(hs: Seq<u32>) -> (Seq<int>, Seq<int>)
    decreases hs.len(),
{
    if hs.len() == 0 {
        (Seq::empty(), Seq::empty())
    } else {
        let prev = runway_grouping(hs.drop_last());
        let h = hs.last() % 3600;
        let g = first_parallel(prev.0, h as int);
        if g < prev.0.len() {
            (prev.0, prev.1.push(g))
        } else {
            (prev.0.push(h as int), prev.1.push(prev.0.len() as int))
        }
    }
}

/// Indices `i` with `gof[i] == g`, in increasing order.
pub open spec fn members_of(gof: Seq<int>, g: int) -> Seq<usize>
    decreases gof.len(),
{
    if gof.len() == 0 {
        Seq::empty()
    } else if gof.last() == g {
        members_of(gof.drop_last(), g).push((gof.len() - 1) as usize)
    } else {
        members_of(gof.drop_last(), g)
    }
}

proof fn lemma_first_parallel(heads: Seq<int>, h: int, g: int)
    requires
        0 <= g <= heads.len(),
        g < heads.len() ==> headings_parallel(h, heads[g]),
        forall|k: int| 0 <= k < g ==> !headings_parallel(h, #[trigger] heads[k]),
    ensures
        first_parallel(heads, h) == g,
    decreases heads.len(),
{
    if heads.len() > 0 && g > 0 {
        assert forall|k: int| 0 <= k < g - 1 implies !headings_parallel(h, #[trigger] heads.drop_first()[k]) by {
            assert(heads.drop_first()[k] == heads[k + 1]);
        }
        lemma_first_parallel(heads.drop_first(), h, g - 1);
    }
}

proof fn lemma_first_parallel_bound(heads: Seq<int>, h: int)
    ensures
        0 <= first_parallel(heads, h) <= heads.len(),
        first_parallel(heads, h) < heads.len() ==> headings_parallel(h, heads[first_parallel(heads, h)]),
    decreases heads.len(),
{
    if heads.len() > 0 && !headings_parallel(h, heads[0]) {
        lemma_first_parallel_bound(heads.drop_first(), h);
    }
}

/// Every runway belongs to exactly one group, and its heading is parallel to its
/// group's heading (which is the heading of the group's first runway).
pub proof fn runway_groups_sound(hs: Seq<u32>)
    ensures
        runway_grouping(hs).1.len() == hs.len(),
        forall|i: int|
            0 <= i < hs.len() ==> 0 <= #[trigger] runway_grouping(hs).1[i] < runway_grouping(hs).0.len(),
        forall|i: int|
            0 <= i < hs.len() ==> headings_parallel(
                (hs[i] % 3600) as int,
                runway_grouping(hs).0[#[trigger] runway_grouping(hs).1[i]],
            ),
    decreases hs.len(),
{
    if hs.len() > 0 {
        let prev = hs.drop_last();
        runway_groups_sound(prev);
        let h = hs.last() % 3600;
        lemma_first_parallel_bound(runway_grouping(prev).0, h as int);
        assert forall|i: int| 0 <= i < hs.len() implies headings_parallel(
            (hs[i] % 3600) as int,
            runway_grouping(hs).0[#[trigger] runway_grouping(hs).1[i]],
        ) by {
            if i < hs.len() - 1 {
                assert(hs[i] == prev[i]);
                assert(runway_grouping(hs).1[i] == runway_grouping(prev).1[i]);
            } else {
                let d = (h - h + 5400) % 3600 - 1800;
                assert(d == 0);
            }
        }
    }
}

/// A group of parallel runways.
#[derive(Debug)]
pub struct RunwayGroup {
    /// heading of the group's first runway, tenths of a degree in `[0, 3600)`
    pub heading_tenths: u32,
    /// indices of the group's runways, in increasing order
    pub members: Vec<usize>,
}

/// Group runways by heading (tenths of a degree): parallel runways, less than 5°
/// apart, share a group; groups come in the order of their first runway.
pub fn group_parallel_runways(headings: &Vec<u32>) -> (r: Vec<RunwayGroup>)
    ensures
        r@.len() == runway_grouping(headings@).0.len(),
        forall|g: int|
            0 <= g < r@.len() ==> #[trigger] r@[g].heading_tenths == runway_grouping(headings@).0[g]
                && r@[g].members@ == members_of(runway_grouping(headings@).1, g),
{
    let n = headings.len();
    let mut heads: Vec<u32> = Vec::new();
    let mut gof: Vec<usize> = Vec::new();
    let mut i: usize = 0;
    while i < n
        invariant
            n == headings@.len(),
            i <= n,
            heads@.len() == runway_grouping(headings@.take(i as int)).0.len(),
            forall|k: int|
                0 <= k < heads@.len() ==> #[trigger] heads@[k] == runway_grouping(headings@.take(i as int)).0[k],
            forall|k: int| 0 <= k < heads@.len() ==> #[trigger] heads@[k] < 3600,
            gof@.len() == i,
            runway_grouping(headings@.take(i as int)).1.len() == i,
            forall|k: int| 0 <= k < i ==> #[trigger] gof@[k] == runway_grouping(headings@.take(i as int)).1[k],
            heads@.len() <= i,
        decreases n - i,
    {
        let h = headings[i] % 3600;
        let ghost prev = headings@.take(i as int);
        let ghost hv = runway_grouping(prev).0;
        proof {
            assert(headings@.take(i + 1).drop_last() =~= prev);
            assert(headings@.take(i + 1).last() == headings@[i as int]);
        }
        let mut g: usize = 0;
        let mut found = false;
        while g < heads.len() && !found
            invariant
                g <= heads@.len(),
                heads@.len() == hv.len(),
                forall|k: int| 0 <= k < heads@.len() ==> #[trigger] heads@[k] == hv[k],
                forall|k: int| 0 <= k < heads@.len() ==> #[trigger] heads@[k] < 3600,
                h < 3600,
                found ==> g < heads@.len() && headings_parallel(h as int, hv[g as int]),
                forall|k: int| 0 <= k < g ==> !headings_parallel(h as int, #[trigger] hv[k]),
            decreases heads@.len() - g + (if found { 0int } else { 1int }),
        {
            let r = (h + 5400 - heads[g]) % 3600;
            if 1750 < r && r < 1850 {
                found = true;
            } else {
                g = g + 1;
            }
        }
        proof {
            lemma_first_parallel(hv, h as int, g as int);
        }
        let ghost gv = g as int;
        if g < heads.len() {
            gof.push(g);
        } else {
            heads.push(h);
            gof.push(g);
        }
        proof {
            let next = runway_grouping(headings@.take(i + 1));
            assert(next.1 == runway_grouping(prev).1.push(gv));
            assert forall|k: int| 0 <= k < i + 1 implies #[trigger] gof@[k] == next.1[k] by {
                if k < i {
                    assert(gof@[k] == runway_grouping(prev).1[k]);
                }
            }
            if gv < hv.len() {
                assert(next.0 == hv);
            } else {
                assert(next.0 == hv.push(h as int));
                assert forall|k: int| 0 <= k < heads@.len() implies #[trigger] heads@[k] == next.0[k] by {
                    if k < hv.len() {
                        assert(heads@[k] == hv[k]);
                    }
                }
            }
        }
        i = i + 1;
    }
    proof {
        assert(headings@.take(n as int) =~= headings@);
    }
    let ghost gs = runway_grouping(headings@);
    let mut r: Vec<RunwayGroup> = Vec::new();
    let mut g: usize = 0;
    while g < heads.len()
        invariant
            n == headings@.len(),
            gof@.len() == n,
            heads@.len() == gs.0.len(),
            forall|k: int| 0 <= k < heads@.len() ==> #[trigger] heads@[k] == gs.0[k],
            forall|k: int| 0 <= k < n ==> #[trigger] gof@[k] == gs.1[k],
            gs.1.len() == n,
            g <= heads@.len(),
            r@.len() == g,
            forall|k: int|
                0 <= k < g ==> #[trigger] r@[k].heading_tenths == gs.0[k] && r@[k].members@
                    == members_of(gs.1, k),
        decreases heads@.len() - g,
    {
        let mut members: Vec<usize> = Vec::new();
        let mut j: usize = 0;
        while j < n
            invariant
                n == gof@.len(),
                gs.1.len() == n,
                forall|k: int| 0 <= k < n ==> #[trigger] gof@[k] == gs.1[k],
                j <= n,
                members@ == members_of(gs.1.take(j as int), g as int),
            decreases n - j,
        {
            proof {
                assert(gs.1.take(j + 1).drop_last() =~= gs.1.take(j as int));
            }
            if gof[j] == g {
                members.push(j);
            }
            j = j + 1;
        }
        proof {
            assert(gs.1.take(n as int) =~= gs.1);
        }
        let head = heads[g];
        let ghost r0 = r@;
        r.push(RunwayGroup { heading_tenths: head, members });
        proof {
            assert(r@[g as int].heading_tenths == gs.0[g as int]);
            assert(r@[g as int].members@ == members_of(gs.1, g as int));
            assert forall|k: int| 0 <= k < g implies #[trigger] r@[k].heading_tenths == gs.0[k] && r@[k].members@
                == members_of(gs.1, k) by {
                assert(r@[k] == r0[k]);
            }
        }
        g = g + 1;
    }
    r
}

} // verus!
