//! Which contracts of the collection are analysed.
use crate::metadata::{is_supported_compiler, FiestaMetadata};
use crate::settings::contract_limit;
use vstd::prelude::*;

verus! {

/// About how many contracts the whole collection holds.
pub const FIESTA_TOTAL_CONTRACTS: usize = 150_000;

/// What becomes of a contract once its metadata was read.
#[derive(Clone, Copy, Debug, PartialEq, Eq, Structural)]
pub enum Verdict {
    /// Its compiler is not supported.
    Unsupported,
    /// It is one of those to skip over at the start.
    Skipped,
    /// Its sources are wanted.
    Wanted,
}

/// The mathematical value of a [`ContractCollector`].
#[verifier::ext_equal]
pub struct CollectorView {
    /// How many contracts to collect, or zero for no limit.
    pub num_contracts: nat,
    /// How many supported contracts to skip over first.
    pub skip_contracts: nat,
    /// How many were skipped over so far.
    pub skipped_count: nat,
    /// The contracts collected so far.
    pub contracts: Seq<FiestaMetadata>,
}

/// Pyrometer supports the compiler of the contract.
pub open spec fn is_supported(metadata: FiestaMetadata) -> bool {
    is_supported_compiler(metadata.compiler_version@)
}

/// The sources of the contract were found.
pub open spec fn has_source(metadata: FiestaMetadata) -> bool {
    metadata.source_type is Some
}

impl CollectorView {
    /// Nothing was collected yet.
    pub open spec fn initial(num_contracts: nat, skip_contracts: nat) -> CollectorView {
        CollectorView {
            num_contracts,
            skip_contracts,
            skipped_count: 0,
            contracts: Seq::empty(),
        }
    }

    /// The limit is reached.
    pub open spec fn is_full(self) -> bool {
        self.num_contracts != 0 && self.contracts.len() >= self.num_contracts
    }

    /// What becomes of the next contract.
    pub open spec fn verdict(self, metadata: FiestaMetadata) -> Verdict {
        if !is_supported(metadata) {
            Verdict::Unsupported
        } else if self.skipped_count < self.skip_contracts {
            Verdict::Skipped
        } else {
            Verdict::Wanted
        }
    }

    /// After the verdict on a contract: one more was skipped over, or nothing changed.
    pub open spec fn considered(self, metadata: FiestaMetadata) -> CollectorView {
        if self.verdict(metadata) == Verdict::Skipped {
            CollectorView { skipped_count: self.skipped_count + 1, ..self }
        } else {
            self
        }
    }

    /// After the search for the sources of a contract: it joins the others if
    /// they were found.
    pub open spec fn accepted(self, metadata: FiestaMetadata) -> CollectorView {
        if has_source(metadata) {
            CollectorView { contracts: self.contracts.push(metadata), ..self }
        } else {
            self
        }
    }

    /// After one more contract, with the sources that a search for them finds.
    pub open spec fn step(self, metadata: FiestaMetadata) -> CollectorView {
        if self.is_full() {
            self
        } else if self.verdict(metadata) == Verdict::Wanted {
            self.considered(metadata).accepted(metadata)
        } else {
            self.considered(metadata)
        }
    }

    /// After a whole walk over contracts.
    pub open spec fn run(self, candidates: Seq<FiestaMetadata>) -> CollectorView
        decreases candidates.len(),
    {
        if candidates.len() == 0 {
            self
        } else {
            self.run(candidates.drop_last()).step(candidates.last())
        }
    }
}

/// Collects the contracts to analyse, one at a time.
pub struct ContractCollector {
    num_contracts: usize,
    skip_contracts: usize,
    skipped_count: usize,
    contracts: Vec<FiestaMetadata>,
}

impl View for ContractCollector {
    type V = CollectorView;

    closed spec fn view(&self) -> CollectorView {
        CollectorView {
            num_contracts: self.num_contracts as nat,
            skip_contracts: self.skip_contracts as nat,
            skipped_count: self.skipped_count as nat,
            contracts: self.contracts@,
        }
    }
}

impl ContractCollector {
    /// The sources of every collected contract are known, and no more
    /// contracts are skipped over or collected than asked for.
    pub open spec fn well_formed(self) -> bool {
        &&& forall|i: int|
            0 <= i < self@.contracts.len() ==> has_source(#[trigger] self@.contracts[i])
        &&& self@.skipped_count <= self@.skip_contracts
        &&& self@.num_contracts != 0 ==> self@.contracts.len() <= self@.num_contracts
    }

    /// A collector that skips over `skip_contracts` supported contracts and then
    /// collects `num_contracts`, or all there are if that is zero.
    pub fn new(num_contracts: usize, skip_contracts: usize) -> (collector: ContractCollector)
        ensures
            collector.well_formed(),
            collector@ == CollectorView::initial(num_contracts as nat, skip_contracts as nat),
    {
        ContractCollector {
            num_contracts,
            skip_contracts,
            skipped_count: 0,
            contracts: Vec::with_capacity(FIESTA_TOTAL_CONTRACTS),
        }
    }

    /// Whether as many contracts are collected as were asked for.
    pub fn is_full(&self) -> (full: bool)
        ensures
            full == self@.is_full(),
    {
        self.num_contracts != 0 && self.contracts.len() >= self.num_contracts
    }

    /// Decides on a contract whose metadata was read.
    pub fn consider(&mut self, metadata: &FiestaMetadata) -> (verdict: Verdict)
        requires
            old(self).well_formed(),
        ensures
            final(self).well_formed(),
            verdict == old(self)@.verdict(*metadata),
            final(self)@ == old(self)@.considered(*metadata),
    {
        if !metadata.compiler_is_supported() {
            return Verdict::Unsupported;
        }
        if self.skipped_count < self.skip_contracts {
            self.skipped_count += 1;
            return Verdict::Skipped;
        }
        Verdict::Wanted
    }

    /// Takes in a wanted contract whose sources were searched for, and tells
    /// whether as many are collected as were asked for.
    pub fn accept(&mut self, metadata: FiestaMetadata) -> (full: bool)
        requires
            old(self).well_formed(),
            !old(self)@.is_full(),
        ensures
            final(self).well_formed(),
            final(self)@ == old(self)@.accepted(metadata),
            full == final(self)@.is_full(),
    {
        if metadata.source_type.is_some() {
            self.contracts.push(metadata);
        }
        self.is_full()
    }

    /// The contracts collected.
    pub fn into_contracts(self) -> (contracts: Vec<FiestaMetadata>)
        ensures
            contracts@ == self@.contracts,
    {
        self.contracts
    }
}

/// `items` without the first `count`.
pub open spec fn past_first<T>(items: Seq<T>, count: nat) -> Seq<T> {
    if count <= items.len() {
        items.skip(count as int)
    } else {
        Seq::empty()
    }
}

/// The first `limit` of `items`, or all of them if there are fewer or the limit is zero.
pub open spec fn at_most<T>(items: Seq<T>, limit: nat) -> Seq<T> {
    if limit == 0 || items.len() <= limit {
        items
    } else {
        items.take(limit as int)
    }
}

/// Of the supported contracts, those past the first `skip_contracts` whose
/// sources were found.
pub open spec fn eligible(candidates: Seq<FiestaMetadata>, skip_contracts: nat) -> Seq<
    FiestaMetadata,
> {
    past_first(candidates.filter(|m: FiestaMetadata| is_supported(m)), skip_contracts).filter(
        |m: FiestaMetadata| has_source(m),
    )
}

/// A walk over contracts collects, in the order of the walk, the supported ones
/// past the first `skip_contracts` whose sources are found, up to
/// `num_contracts` of them.
pub proof fn walk_collects_first_eligible(
    candidates: Seq<FiestaMetadata>,
    num_contracts: nat,
    skip_contracts: nat,
)
    ensures
        CollectorView::initial(num_contracts, skip_contracts).run(candidates).contracts == at_most(
            eligible(candidates, skip_contracts),
            num_contracts,
        ),
{
    walk_invariant(candidates, num_contracts, skip_contracts);
}

proof fn filter_is_no_longer<T>(items: Seq<T>, pred: spec_fn(T) -> bool)
    ensures
        items.filter(pred).len() <= items.len(),
    decreases items.len(),
{
    reveal(Seq::filter);
    if items.len() > 0 {
        filter_is_no_longer(items.drop_last(), pred);
    }
}

/// Where the number of contracts is given as zero, every eligible contract is
/// collected. There must be no more contracts than can be counted.
pub proof fn zero_collects_every_contract(
    candidates: Seq<FiestaMetadata>,
    skip_contracts: nat,
)
    requires
        candidates.len() <= usize::MAX,
    ensures
        CollectorView::initial(contract_limit(Some(0)) as nat, skip_contracts).run(
            candidates,
        ).contracts == eligible(candidates, skip_contracts),
{
    let supported = candidates.filter(|m: FiestaMetadata| is_supported(m));
    filter_is_no_longer(candidates, |m: FiestaMetadata| is_supported(m));
    filter_is_no_longer(
        past_first(supported, skip_contracts),
        |m: FiestaMetadata| has_source(m),
    );
    walk_collects_first_eligible(candidates, contract_limit(Some(0)) as nat, skip_contracts);
}

/// Where any other number of contracts is asked for, that many are collected if
/// that many are eligible.
pub proof fn as_many_are_collected_as_asked_for(
    candidates: Seq<FiestaMetadata>,
    num_contracts: Option<usize>,
    skip_contracts: nat,
)
    requires
        num_contracts != Some(0usize),
        eligible(candidates, skip_contracts).len() >= contract_limit(num_contracts),
    ensures
        CollectorView::initial(contract_limit(num_contracts) as nat, skip_contracts).run(
            candidates,
        ).contracts.len() == contract_limit(num_contracts),
{
    walk_collects_first_eligible(
        candidates,
        contract_limit(num_contracts) as nat,
        skip_contracts,
    );
}

proof fn walk_invariant(candidates: Seq<FiestaMetadata>, num_contracts: nat, skip_contracts: nat)
    ensures
        ({
            let supported = candidates.filter(|m: FiestaMetadata| is_supported(m));
            let end = CollectorView::initial(num_contracts, skip_contracts).run(candidates);
            &&& end.num_contracts == num_contracts
            &&& end.skip_contracts == skip_contracts
            &&& end.skipped_count == (if supported.len() < skip_contracts {
                supported.len()
            } else {
                skip_contracts
            })
            &&& end.contracts == at_most(eligible(candidates, skip_contracts), num_contracts)
        }),
    decreases candidates.len(),
{
    reveal(Seq::filter);
    let is_good = |m: FiestaMetadata| is_supported(m);
    let is_found = |m: FiestaMetadata| has_source(m);
    let start = CollectorView::initial(num_contracts, skip_contracts);
    if candidates.len() == 0 {
        assert(candidates.filter(is_good) =~= Seq::empty());
        assert(past_first(candidates.filter(is_good), skip_contracts) =~= Seq::empty());
        assert(eligible(candidates, skip_contracts) =~= Seq::empty());
    } else {
        let rest = candidates.drop_last();
        let c = candidates.last();
        walk_invariant(rest, num_contracts, skip_contracts);
        let supported = rest.filter(is_good);
        let before = start.run(rest);
        if is_supported(c) {
            assert(candidates.filter(is_good) == supported.push(c));
            let kept = past_first(supported, skip_contracts);
            let kept_now = past_first(supported.push(c), skip_contracts);
            if supported.len() < skip_contracts {
                assert(kept =~= Seq::empty());
                assert(kept_now =~= Seq::empty());
                assert(before.contracts =~= Seq::empty());
            } else {
                assert(kept_now =~= kept.push(c));
                assert(kept_now.drop_last() =~= kept);
                let found = kept.filter(is_found);
                if has_source(c) {
                    assert(kept_now.filter(is_found) == found.push(c));
                    if before.is_full() {
                        assert(found.push(c).take(num_contracts as int) =~= at_most(
                            found,
                            num_contracts,
                        ));
                    }
                }
            }
        } else {
            assert(candidates.filter(is_good) == supported);
        }
    }
}

proof fn filter_of_one<T>(item: T, pred: spec_fn(T) -> bool)
    ensures
        seq![item].filter(pred) == (if pred(item) {
            seq![item]
        } else {
            Seq::empty()
        }),
{
    reveal(Seq::filter);
    assert(seq![item].drop_last() =~= Seq::<T>::empty());
    assert(Seq::<T>::empty().filter(pred) =~= Seq::<T>::empty());
    assert(seq![item].last() == item);
    assert(Seq::<T>::empty().push(item) =~= seq![item]);
}

/// What a walk makes of its first contract. One whose compiler is not supported
/// changes nothing. A supported one is skipped over as long as there are some to
/// skip over, and is one less to skip over then. After that it is collected if
/// it has sources, in front of all others, and is one less to collect.
pub proof fn walk_goes_contract_by_contract(
    first: FiestaMetadata,
    rest: Seq<FiestaMetadata>,
    num_contracts: nat,
    skip_contracts: nat,
)
    ensures
        ({
            let collected = CollectorView::initial(num_contracts, skip_contracts).run(
                seq![first] + rest,
            ).contracts;
            let others = CollectorView::initial(num_contracts, skip_contracts).run(rest).contracts;
            let one_skip_less = CollectorView::initial(
                num_contracts,
                (skip_contracts - 1) as nat,
            ).run(rest).contracts;
            let one_less = CollectorView::initial((num_contracts - 1) as nat, 0).run(
                rest,
            ).contracts;
            if !is_supported_compiler(first.compiler_version@) {
                collected == others
            } else if skip_contracts > 0 {
                collected == one_skip_less
            } else if first.source_type is None {
                collected == others
            } else if num_contracts == 0 {
                collected == seq![first] + others
            } else if num_contracts == 1 {
                collected == seq![first]
            } else {
                collected == seq![first] + one_less
            }
        }),
{
    let is_good = |m: FiestaMetadata| is_supported(m);
    let is_found = |m: FiestaMetadata| has_source(m);
    let all = seq![first] + rest;
    walk_collects_first_eligible(all, num_contracts, skip_contracts);
    walk_collects_first_eligible(rest, num_contracts, skip_contracts);
    Seq::filter_distributes_over_add(seq![first], rest, is_good);
    filter_of_one(first, is_good);
    let supported = rest.filter(is_good);
    if !is_supported(first) {
        assert(all.filter(is_good) =~= supported);
    } else {
        assert(all.filter(is_good) == seq![first] + supported);
        if skip_contracts > 0 {
            let fewer = (skip_contracts - 1) as nat;
            walk_collects_first_eligible(rest, num_contracts, fewer);
            assert(past_first(seq![first] + supported, skip_contracts) =~= past_first(
                supported,
                fewer,
            ));
        } else {
            assert(past_first(supported, 0) =~= supported);
            assert(past_first(seq![first] + supported, 0) =~= seq![first] + supported);
            Seq::filter_distributes_over_add(seq![first], supported, is_found);
            filter_of_one(first, is_found);
            let found = supported.filter(is_found);
            if !has_source(first) {
                assert((seq![first] + supported).filter(is_found) =~= found);
            } else {
                assert((seq![first] + supported).filter(is_found) == seq![first] + found);
                if num_contracts > 1 {
                    walk_collects_first_eligible(rest, (num_contracts - 1) as nat, 0);
                    assert(at_most(seq![first] + found, num_contracts) =~= seq![first] + at_most(
                        found,
                        (num_contracts - 1) as nat,
                    ));
                } else if num_contracts == 1 {
                    assert(at_most(seq![first] + found, 1) =~= seq![first]);
                }
            }
        }
    }
}

/// A walk over nothing collects nothing.
pub proof fn an_empty_walk_collects_nothing(num_contracts: nat, skip_contracts: nat)
    ensures
        CollectorView::initial(num_contracts, skip_contracts).run(
            Seq::empty(),
        ).contracts.len() == 0,
{
}

/// No walk collects more contracts than asked for, and every contract that it
/// collects is supported and comes with its sources.
pub proof fn collected_contracts_are_analysable(
    candidates: Seq<FiestaMetadata>,
    num_contracts: nat,
    skip_contracts: nat,
)
    ensures
        ({
            let end = CollectorView::initial(num_contracts, skip_contracts).run(candidates);
            &&& num_contracts != 0 ==> end.contracts.len() <= num_contracts
            &&& forall|i: int|
                0 <= i < end.contracts.len() ==> is_supported(#[trigger] end.contracts[i])
                    && has_source(end.contracts[i])
        }),
    decreases candidates.len(),
{
    if candidates.len() > 0 {
        collected_contracts_are_analysable(
            candidates.drop_last(),
            num_contracts,
            skip_contracts,
        );
        walk_invariant(candidates.drop_last(), num_contracts, skip_contracts);
    }
}

} // verus!
