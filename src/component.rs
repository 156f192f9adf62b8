use crate::digest::{digest_of, Encryption};
use crate::errors::HWIDError;
use crate::text::same_text;
use vstd::prelude::*;
use vstd::string::StringExecFns;

verus! {

/// The components that can be used to build the HWID.
#[derive(Debug, Clone, Copy, Hash)]
pub enum HWIDComponent {
    /// System UUID
    SystemID,
    /// Number of CPU Cores
    CPUCores,
    /// Name of the OS
    OSName,
    /// Current Username
    Username,
    /// Host machine name
    MachineName,
    /// Mac Address
    MacAddress,
    /// CPU Vendor ID
    CPUID,
    /// The contents of a file
    FileToken(&'static str),
    /// UUID of the root disk
    DriveSerial,
}

/// Two components are the same when they are the same variant, and, for file tokens,
/// name the same path.
pub open spec fn same_component(a: HWIDComponent, b: HWIDComponent) -> bool {
    match (a, b) {
        (HWIDComponent::FileToken(x), HWIDComponent::FileToken(y)) => x@ == y@,
        _ => a == b,
    }
}

impl PartialEq for HWIDComponent {
    fn eq(&self, o: &HWIDComponent) -> (r: bool) {
        match (self, o) {
            (HWIDComponent::FileToken(x), HWIDComponent::FileToken(y)) => same_text(x, y),
            (HWIDComponent::SystemID, HWIDComponent::SystemID) => true,
            (HWIDComponent::CPUCores, HWIDComponent::CPUCores) => true,
            (HWIDComponent::OSName, HWIDComponent::OSName) => true,
            (HWIDComponent::Username, HWIDComponent::Username) => true,
            (HWIDComponent::MachineName, HWIDComponent::MachineName) => true,
            (HWIDComponent::MacAddress, HWIDComponent::MacAddress) => true,
            (HWIDComponent::CPUID, HWIDComponent::CPUID) => true,
            (HWIDComponent::DriveSerial, HWIDComponent::DriveSerial) => true,
            _ => false,
        }
    }
}

impl vstd::std_specs::cmp::PartialEqSpecImpl for HWIDComponent {
    open spec fn obeys_eq_spec() -> bool {
        true
    }

    open spec fn eq_spec(&self, o: &HWIDComponent) -> bool {
        same_component(*self, *o)
    }
}

impl Eq for HWIDComponent {

}

/// Some element of `s` is the same component as `c`.
pub open spec fn has_component(s: Seq<HWIDComponent>, c: HWIDComponent) -> bool {
    exists|i: int| 0 <= i < s.len() && same_component(#[trigger] s[i], c)
}

/// `s` after asking to add `c`: unchanged if `c` is there already, else `c` at the end.
pub open spec fn with_component(s: Seq<HWIDComponent>, c: HWIDComponent) -> Seq<HWIDComponent> {
    if has_component(s, c) {
        s
    } else {
        s.push(c)
    }
}

/// `s` after asking to add each of `cs`, in order.
pub open spec fn with_components(s: Seq<HWIDComponent>, cs: Seq<HWIDComponent>) -> Seq<
    HWIDComponent,
>
    decreases cs.len(),
{
    if cs.len() == 0 {
        s
    } else {
        with_component(with_components(s, cs.drop_last()), cs.last())
    }
}

/// No two elements of `s` are the same component.
pub open spec fn no_duplicates(s: Seq<HWIDComponent>) -> bool {
    forall|i: int, j: int|
        0 <= i < s.len() && 0 <= j < s.len() && i != j ==> !same_component(
            #[trigger] s[i],
            #[trigger] s[j],
        )
}

/// Every hardware-derived component, in the order in which `add_all` adds them.
pub open spec fn all_hardware() -> Seq<HWIDComponent> {
    seq![
        HWIDComponent::SystemID,
        HWIDComponent::OSName,
        HWIDComponent::CPUCores,
        HWIDComponent::CPUID,
        HWIDComponent::DriveSerial,
        HWIDComponent::MacAddress,
        HWIDComponent::Username,
        HWIDComponent::MachineName,
    ]
}

/// The concatenation of `s`, with nothing between the pieces.
pub open spec fn concat_all(s: Seq<Seq<char>>) -> Seq<char>
    decreases s.len(),
{
    if s.len() == 0 {
        Seq::empty()
    } else {
        concat_all(s.drop_last()) + s.last()
    }
}

/// A resolved fragment as text, or the error that resolving it gave.
pub open spec fn result_view(r: Result<String, HWIDError>) -> Result<Seq<char>, HWIDError> {
    match r {
        Ok(s) => Ok(s@),
        Err(e) => Err(e),
    }
}

/// What canonicalizing the outcomes `outs` of the probes gives: the first error, or,
/// when every probe succeeded, the concatenation of the fragments in order.
pub open spec fn combine(outs: Seq<Result<Seq<char>, HWIDError>>) -> Result<Seq<char>, HWIDError>
    decreases outs.len(),
{
    if outs.len() == 0 {
        Ok(Seq::empty())
    } else {
        match outs[0] {
            Err(e) => Err(e),
            Ok(s) => match combine(outs.drop_first()) {
                Ok(t) => Ok(s + t),
                Err(e) => Err(e),
            },
        }
    }
}

/// The outcomes of the probes as text.
pub open spec fn results_view(outs: Seq<Result<String, HWIDError>>) -> Seq<
    Result<Seq<char>, HWIDError>,
> {
    outs.map_values(|r: Result<String, HWIDError>| result_view(r))
}

/// What a build gives once the probes returned `outs`: the first error, or the digest
/// of the canonical string.
pub open spec fn build_outcome(alg: Encryption, key: Seq<char>, outs: Seq<Result<Seq<char>, HWIDError>>) -> Result<
    Seq<char>,
    HWIDError,
> {
    match combine(outs) {
        Ok(t) => Ok(digest_of(alg, key, t)),
        Err(e) => Err(e),
    }
}

/// `outs` is what `probe` returned for the leading components of `parts`, asked in
/// order until the first failure or the end.
pub open spec fn resolved_by<F: Fn(&HWIDComponent) -> Result<String, HWIDError>>(
    probe: F,
    parts: Seq<HWIDComponent>,
    outs: Seq<Result<String, HWIDError>>,
) -> bool {
    &&& outs.len() <= parts.len()
    &&& forall|i: int| 0 <= i < outs.len() ==> probe.ensures((&parts[i],), #[trigger] outs[i])
    &&& forall|i: int| 0 <= i < outs.len() - 1 ==> (#[trigger] outs[i]) is Ok
    &&& outs.len() < parts.len() ==> outs.len() > 0 && outs.last() is Err
}

/// The kind of the error for a build with no components.
pub open spec fn empty_set_kind() -> Seq<char> {
    "EmptyComponentSet"@
}

/// `r` with `p` put in front of its text, when it is one.
pub open spec fn prepend(p: Seq<char>, r: Result<Seq<char>, HWIDError>) -> Result<Seq<char>, HWIDError> {
    match r {
        Ok(t) => Ok(p + t),
        Err(e) => Err(e),
    }
}

proof fn lemma_combine_single(x: Result<Seq<char>, HWIDError>)
    ensures
        combine(seq![x]) == x,
{
    let e = Seq::<Result<Seq<char>, HWIDError>>::empty();
    assert(combine(e) == Ok::<Seq<char>, HWIDError>(Seq::empty()));
    assert(seq![x].drop_first() =~= e);
    if x is Ok {
        assert(x->Ok_0 + Seq::<char>::empty() =~= x->Ok_0);
    }
}

proof fn lemma_combine_push(xs: Seq<Result<Seq<char>, HWIDError>>, x: Result<Seq<char>, HWIDError>)
    requires
        combine(xs) is Ok,
    ensures
        combine(xs.push(x)) == prepend(combine(xs)->Ok_0, x),
    decreases xs.len(),
{
    if xs.len() == 0 {
        assert(xs.push(x) =~= seq![x]);
        lemma_combine_single(x);
        assert(combine(xs) == Ok::<Seq<char>, HWIDError>(Seq::empty()));
        if x is Ok {
            assert(Seq::<char>::empty() + x->Ok_0 =~= x->Ok_0);
        }
    } else {
        assert(xs.push(x).drop_first() =~= xs.drop_first().push(x));
        assert(xs.push(x)[0] == xs[0]);
        lemma_combine_push(xs.drop_first(), x);
        if x is Ok {
            let a = xs[0]->Ok_0;
            let b = combine(xs.drop_first())->Ok_0;
            assert(a + (b + x->Ok_0) =~= (a + b) + x->Ok_0);
        }
    }
}

/// A probe that answers alike each time it is asked about the same component: on an
/// unchanged machine, the same fragment or the same failure.
pub open spec fn answers_alike<F: Fn(&HWIDComponent) -> Result<String, HWIDError>>(
    probe: F,
) -> bool {
    forall|c: &HWIDComponent, o1: Result<String, HWIDError>, o2: Result<String, HWIDError>|
        #[trigger] probe.ensures((c,), o1) && #[trigger] probe.ensures((c,), o2) ==> result_view(
            o1,
        ) == result_view(o2)
}

/// Idempotence: two builds of the same components, with a probe that answers alike each
/// time, resolve the same fragments, so they yield the same canonical string and the same
/// identifier (or the same failure).
pub proof fn lemma_build_repeatable<F: Fn(&HWIDComponent) -> Result<String, HWIDError>>(
    probe: F,
    parts: Seq<HWIDComponent>,
    alg: Encryption,
    key: Seq<char>,
    first: Seq<Result<String, HWIDError>>,
    second: Seq<Result<String, HWIDError>>,
)
    requires
        answers_alike(probe),
        resolved_by(probe, parts, first),
        resolved_by(probe, parts, second),
    ensures
        results_view(first) == results_view(second),
        combine(results_view(first)) == combine(results_view(second)),
        build_outcome(alg, key, results_view(first)) == build_outcome(alg, key, results_view(second)),
{
    let n1 = first.len();
    let n2 = second.len();
    assert forall|i: int| 0 <= i < n1 && i < n2 implies result_view(first[i]) == result_view(
        second[i],
    ) by {
        assert(probe.ensures((&parts[i],), first[i]));
        assert(probe.ensures((&parts[i],), second[i]));
    }
    if n1 < n2 {
        assert(result_view(first[n1 - 1]) == result_view(second[n1 - 1]));
        assert(second[n1 - 1] is Ok);
        assert(first.last() == first[n1 - 1]);
    }
    if n2 < n1 {
        assert(result_view(first[n2 - 1]) == result_view(second[n2 - 1]));
        assert(first[n2 - 1] is Ok);
        assert(second.last() == second[n2 - 1]);
    }
    assert(results_view(first) =~= results_view(second));
}

/// Adding a component that is already there does not change what a build gives: with a
/// probe that answers alike, the builds before and after resolve the same fragments.
pub proof fn lemma_add_present_same_build<F: Fn(&HWIDComponent) -> Result<String, HWIDError>>(
    probe: F,
    parts: Seq<HWIDComponent>,
    c: HWIDComponent,
    alg: Encryption,
    key: Seq<char>,
    before: Seq<Result<String, HWIDError>>,
    after: Seq<Result<String, HWIDError>>,
)
    requires
        answers_alike(probe),
        has_component(parts, c),
        resolved_by(probe, parts, before),
        resolved_by(probe, with_component(parts, c), after),
    ensures
        build_outcome(alg, key, results_view(before)) == build_outcome(alg, key, results_view(after)),
{
    lemma_build_repeatable(probe, parts, alg, key, before, after);
}

/// Adding a component that is already there changes nothing.
pub proof fn lemma_add_twice(s: Seq<HWIDComponent>, c: HWIDComponent)
    ensures
        with_component(with_component(s, c), c) == with_component(s, c),
{
    if !has_component(s, c) {
        let t = s.push(c);
        assert(same_component(t[s.len() as int], c));
    }
}

/// Components are kept in insertion order, never sorted: two distinct components added
/// as `a, b` canonicalize to `a`'s fragment followed by `b`'s, and as `b, a` to the
/// reverse.
pub proof fn lemma_insertion_order(a: HWIDComponent, b: HWIDComponent, x: Seq<char>, y: Seq<char>)
    requires
        !same_component(a, b),
    ensures
        with_components(Seq::empty(), seq![a, b]) == seq![a, b],
        with_components(Seq::empty(), seq![b, a]) == seq![b, a],
        combine(seq![Ok(x), Ok(y)]) == Ok::<Seq<char>, HWIDError>(x + y),
        combine(seq![Ok(y), Ok(x)]) == Ok::<Seq<char>, HWIDError>(y + x),
{
    reveal_with_fuel(with_components, 3);
    let e = Seq::<HWIDComponent>::empty();
    assert(seq![a, b].drop_last() =~= seq![a]);
    assert(seq![b, a].drop_last() =~= seq![b]);
    assert(seq![a].drop_last() =~= e);
    assert(seq![b].drop_last() =~= e);
    assert(e.push(a) =~= seq![a]);
    assert(e.push(b) =~= seq![b]);
    assert(!same_component(b, a));
    assert(seq![a].push(b) =~= seq![a, b]);
    assert(seq![b].push(a) =~= seq![b, a]);
    let ox = Ok::<Seq<char>, HWIDError>(x);
    let oy = Ok::<Seq<char>, HWIDError>(y);
    lemma_combine_single(ox);
    lemma_combine_single(oy);
    lemma_combine_push(seq![ox], oy);
    lemma_combine_push(seq![oy], ox);
    assert(seq![ox].push(oy) =~= seq![ox, oy]);
    assert(seq![oy].push(ox) =~= seq![oy, ox]);
}

/// The canonical string of the outcomes of the probes: the first failure, or the
/// fragments concatenated in order with nothing between them.
pub fn canonicalize(outs: Vec<Result<String, HWIDError>>) -> (r: Result<String, HWIDError>)
    ensures
        result_view(r) == combine(results_view(outs@)),
{
    let ghost all = results_view(outs@);
    let mut rest = outs;
    let mut acc = String::new();
    assert(Seq::<char>::empty() + Seq::<char>::empty() =~= Seq::<char>::empty());
    assert(acc@ =~= Seq::<char>::empty());
    proof {
        match combine(all) {
            Ok(t) => assert(Seq::<char>::empty() + t =~= t),
            Err(_) => {},
        }
    }
    while rest.len() > 0
        invariant
            all == results_view(outs@),
            combine(all) == prepend(acc@, combine(results_view(rest@))),
        decreases rest.len(),
    {
        let ghost before = rest@;
        let next = rest.remove(0);
        assert(results_view(before).drop_first() =~= results_view(rest@));
        assert(results_view(before)[0] == result_view(next));
        assert(combine(results_view(before)) == match result_view(next) {
            Err(e) => Err(e),
            Ok(t) => prepend(t, combine(results_view(rest@))),
        });
        match next {
            Ok(s) => {
                let ghost a = acc@;
                acc.append(s.as_str());
                proof {
                    match combine(results_view(rest@)) {
                        Ok(t) => assert(a + (s@ + t) =~= (a + s@) + t),
                        Err(_) => {},
                    }
                }
            },
            Err(e) => {
                assert(combine(results_view(before)) == Err::<Seq<char>, HWIDError>(e));
                assert(combine(all) == Err::<Seq<char>, HWIDError>(e));
                assert(result_view(Err(e)) == Err::<Seq<char>, HWIDError>(e));
                return Err(e);
            },
        }
    }
    assert(results_view(rest@) =~= Seq::<Result<Seq<char>, HWIDError>>::empty());
    assert(acc@ + Seq::<char>::empty() =~= acc@);
    Ok(acc)
}

/// `IdBuilder` is the constructor for the HWID. It can be used with the 3 different options of the `Encryption` enum.
pub struct IdBuilder {
    parts: Vec<HWIDComponent>,
    pub hash: Encryption,
}

impl IdBuilder {
    /// The components added so far, in insertion order.
    pub closed spec fn components(&self) -> Seq<HWIDComponent> {
        self.parts@
    }

    /// The hash that a build applies.
    pub closed spec fn algorithm(&self) -> Encryption {
        self.hash
    }

    /// Makes a new IdBuilder with the selected Encryption
    pub fn new(hash: Encryption) -> (r: Self)
        ensures
            r.components() == Seq::<HWIDComponent>::empty(),
            r.algorithm() == hash,
    {
        IdBuilder { parts: Vec::new(), hash }
    }

    /// The components added so far, in insertion order.
    pub fn parts(&self) -> (r: &Vec<HWIDComponent>)
        ensures
            r@ == self.components(),
    {
        &self.parts
    }

    /// Resolves every component through `probe`, in insertion order, and returns the
    /// hex-encoded keyed hash of the fragments joined with nothing between them.
    ///
    /// Fails with `EmptyComponentSet`, before any probe runs, when no component was
    /// added; otherwise fails with the first failure of a probe, after which no other
    /// probe runs.
    pub fn build<F>(&mut self, key: &str, probe: F) -> (r: Result<String, HWIDError>) where
        F: Fn(&HWIDComponent) -> Result<String, HWIDError>,

        requires
            forall|c: &HWIDComponent| #[trigger] probe.requires((c,)),
        ensures
            *final(self) == *old(self),
            old(self).components().len() == 0 ==> r is Err && r->Err_0.kind_spec()
                == empty_set_kind(),
            old(self).components().len() > 0 ==> exists|outs: Seq<Result<String, HWIDError>>|
                #[trigger] resolved_by(probe, old(self).components(), outs) && result_view(r)
                    == build_outcome(old(self).algorithm(), key@, results_view(outs)),
    {
        if self.parts.len() == 0 {
            return Err(
                HWIDError::new(
                    "EmptyComponentSet",
                    "at least one component must be added before building",
                ),
            );
        }
        let ghost mut outs: Seq<Result<String, HWIDError>> = Seq::empty();
        let mut acc = String::new();
        let mut i: usize = 0;
        assert(results_view(outs) =~= Seq::<Result<Seq<char>, HWIDError>>::empty());
        assert(acc@ =~= Seq::<char>::empty());
        while i < self.parts.len()
            invariant
                i <= self.parts.len(),
                outs.len() == i,
                forall|k: int|
                    0 <= k < i ==> probe.ensures((&self.parts@[k],), #[trigger] outs[k]),
                forall|k: int| 0 <= k < i ==> (#[trigger] outs[k]) is Ok,
                combine(results_view(outs)) == Ok::<Seq<char>, HWIDError>(acc@),
                forall|c: &HWIDComponent| #[trigger] probe.requires((c,)),
            decreases self.parts.len() - i,
        {
            let res = probe(&self.parts[i]);
            let ghost prev = outs;
            proof {
                outs = outs.push(res);
                assert(results_view(outs) =~= results_view(prev).push(result_view(res)));
                lemma_combine_push(results_view(prev), result_view(res));
            }
            match res {
                Ok(s) => {
                    acc.append(s.as_str());
                },
                Err(e) => {
                    assert(resolved_by(probe, self.parts@, outs));
                    return Err(e);
                },
            }
            i = i + 1;
        }
        assert(resolved_by(probe, self.parts@, outs));
        self.hash.generate_hash(key, acc.as_str())
    }

    /// Adds a component, unless the same component is there already.
    pub fn add_component(&mut self, component: HWIDComponent) -> (r: &mut Self)
        ensures
            r.components() == with_component(old(self).components(), component),
            r.algorithm() == old(self).algorithm(),
            no_duplicates(old(self).components()) ==> no_duplicates(r.components()),
            *final(self) == *final(r),
    {
        let mut i: usize = 0;
        while i < self.parts.len() && !(self.parts[i] == component)
            invariant
                i <= self.parts.len(),
                forall|k: int| 0 <= k < i ==> !same_component(self.parts@[k], component),
            decreases self.parts.len() - i,
        {
            i = i + 1;
        }
        if i == self.parts.len() {
            self.parts.push(component);
            assert(self.parts@.drop_last() =~= old(self).parts@);
        } else {
            assert(same_component(self.parts@[i as int], component));
        }
        self
    }

    /// Adds every hardware-derived component (not the file token) in a fixed order.
    pub fn add_all(&mut self) -> (r: &mut Self)
        ensures
            r.components() == with_components(old(self).components(), all_hardware()),
            r.algorithm() == old(self).algorithm(),
            no_duplicates(old(self).components()) ==> no_duplicates(r.components()),
            *final(self) == *final(r),
    {
        reveal_with_fuel(with_components, 9);
        self.add_component(HWIDComponent::SystemID)
            .add_component(HWIDComponent::OSName)
            .add_component(HWIDComponent::CPUCores)
            .add_component(HWIDComponent::CPUID)
            .add_component(HWIDComponent::DriveSerial)
            .add_component(HWIDComponent::MacAddress)
            .add_component(HWIDComponent::Username)
            .add_component(HWIDComponent::MachineName)
    }
}

} // verus!
