//! Identities of lifetimes and the pointer hops they bound.

use vstd::prelude::*;

verus! {

/// Identifies a lifetime bounding some data: either the whole-program
/// (`'static`) sentinel, or a lifetime parameter identified by its
/// declaration site. Two parameters are equal exactly when they were
/// declared at the same site; the sentinel equals only itself.
#[derive(Clone, Copy, Debug, PartialEq, Eq, Structural)]
pub enum LifetimeName {
    /// The whole-program lifetime.
    Static,
    /// A named or anonymous lifetime parameter, identified by the
    /// declaration site the front end assigned to it. A synthetic tag
    /// minted for a generic type parameter reuses that parameter's
    /// declaration identity.
    Param(u64),
}

/// Whether two lifetime identities denote the same lifetime.
pub fn compare_lifetimes(lifetime1: &LifetimeName, lifetime2: &LifetimeName) -> (r: bool)
    ensures
        r == (lifetime1 == lifetime2),
{
    match (lifetime1, lifetime2) {
        (LifetimeName::Static, LifetimeName::Static) => true,
        (LifetimeName::Param(a), LifetimeName::Param(b)) => a == b,
        _ => false,
    }
}

/// The image of `x` under an association-list substitution: the value of
/// the first entry whose key is `x`, or `x` itself when no entry matches.
pub open spec fn remap_spec(x: LifetimeName, remap: Seq<(LifetimeName, LifetimeName)>) -> LifetimeName
    decreases remap.len(),
{
    if remap.len() == 0 {
        x
    } else if remap[0].0 == x {
        remap[0].1
    } else {
        remap_spec(x, remap.subrange(1, remap.len() as int))
    }
}

/// Applies a lifetime substitution built from a formal/actual parameter
/// pairing: returns the replacement for `x`, or `x` when it is not mapped.
pub fn apply_remap(x: LifetimeName, remap: &Vec<(LifetimeName, LifetimeName)>) -> (r: LifetimeName)
    ensures
        r == remap_spec(x, remap@),
{
    let n = remap.len();
    assert(remap@.subrange(0, n as int) =~= remap@);
    for i in 0..n
        invariant
            n == remap@.len(),
            remap_spec(x, remap@.subrange(i as int, n as int)) == remap_spec(x, remap@),
    {
        assert(remap@.subrange(i as int, n as int)[0] == remap@[i as int]);
        if compare_lifetimes(&remap[i].0, &x) {
            return remap[i].1;
        }
        assert(remap@.subrange(i as int, n as int).subrange(1, (n - i) as int)
            =~= remap@.subrange(i + 1, n as int));
    }
    assert(remap@.subrange(n as int, n as int).len() == 0);
    x
}

/// One level of indirection bounding a sub-value: the lifetimes annotated
/// on this hop (empty means the hop is owned outright or is a raw
/// pointer without an inherited lifetime), its mutability, whether it is
/// a raw pointer, and whether it is an interior-mutability cell that
/// provides runtime-checked exclusivity.
#[derive(Clone, Debug)]
pub struct MyLifetime {
    pub names: Vec<LifetimeName>,
    pub is_mut: bool,
    pub is_raw: bool,
    pub is_refcell: bool,
}

/// Mathematical image of a [`MyLifetime`] hop.
pub ghost struct HopV {
    pub names: Seq<LifetimeName>,
    pub is_mut: bool,
    pub is_raw: bool,
    pub is_refcell: bool,
}

impl View for MyLifetime {
    type V = HopV;

    open spec fn view(&self) -> HopV {
        HopV { names: self.names@, is_mut: self.is_mut, is_raw: self.is_raw, is_refcell: self.is_refcell }
    }
}

impl MyLifetime {
    /// Clones the hop; the copy carries the same tags and flags.
    pub fn clone_hop(&self) -> (r: MyLifetime)
        ensures
            r@ == self@,
    {
        MyLifetime {
            names: clone_lifetime_vec(&self.names),
            is_mut: self.is_mut,
            is_raw: self.is_raw,
            is_refcell: self.is_refcell,
        }
    }
}

/// Clones a vector of lifetime identities, preserving its contents.
pub fn clone_lifetime_vec(v: &Vec<LifetimeName>) -> (r: Vec<LifetimeName>)
    ensures
        r@ == v@,
{
    let mut out: Vec<LifetimeName> = Vec::new();
    let n = v.len();
    for i in 0..n
        invariant
            n == v@.len(),
            out@ == v@.subrange(0, i as int),
    {
        out.push(v[i]);
        assert(out@ =~= v@.subrange(0, i + 1 as int));
    }
    assert(out@ =~= v@);
    out
}

/// Clones a vector of hops, preserving the view of every element.
pub fn clone_hop_vec(v: &Vec<MyLifetime>) -> (r: Vec<MyLifetime>)
    ensures
        r@.len() == v@.len(),
        forall|j: int| 0 <= j < v@.len() ==> #[trigger] r@[j]@ == v@[j]@,
        r@.map_values(|h: MyLifetime| h@) == v@.map_values(|h: MyLifetime| h@),
{
    let mut out: Vec<MyLifetime> = Vec::new();
    let n = v.len();
    for i in 0..n
        invariant
            n == v@.len(),
            out@.len() == i,
            forall|j: int| 0 <= j < i ==> #[trigger] out@[j]@ == v@[j]@,
    {
        out.push(v[i].clone_hop());
    }
    assert(out@.map_values(|h: MyLifetime| h@) =~= v@.map_values(|h: MyLifetime| h@));
    out
}

/// Whether `lts@` contains the `'static` sentinel.
pub fn contains_static(lts: &Vec<LifetimeName>) -> (r: bool)
    ensures
        r == lts@.contains(LifetimeName::Static),
{
    let n = lts.len();
    for i in 0..n
        invariant
            n == lts@.len(),
            forall|j: int| 0 <= j < i ==> lts@[j] != LifetimeName::Static,
    {
        if compare_lifetimes(&lts[i], &LifetimeName::Static) {
            return true;
        }
    }
    false
}

} // verus!
