//! Value cells that hold a plain-data value as the bit pattern of a native
//! integer, one cell type per supported width (32 and 64 bits).
//!
//! A cell stores nothing but the bit pattern of the value it was given, and
//! every operation — `load`, `store`, `swap`, `compare_exchange`,
//! `compare_exchange_weak` — acts on that pattern as a single indivisible
//! transition. The bridge between a value and its pattern is the pair of
//! traits [`Plain32`] and [`Plain64`]: a type implements one of them by
//! exhibiting a bit representation of exactly the cell's width together with a
//! proof that reading the representation back yields the original value.

use vstd::multiset::Multiset;
use vstd::prelude::*;

mod subatomic32;
mod subatomic64;

pub use subatomic32::Plain32;
pub use subatomic32::Subatomic32;
pub use subatomic64::Plain64;
pub use subatomic64::Subatomic64;
pub use subatomic64::TagCount;

verus! {

/// The previous values handed back by a run of `swap` calls that starts on a
/// cell holding `initial` and installs the values of `installed` in order:
/// the first swap returns the initial value, and each later swap returns the
/// value installed just before it.
pub open spec fn swap_returns<T>(initial: T, installed: Seq<T>) -> Seq<T>
    decreases installed.len(),
{
    if installed.len() == 0 {
        Seq::empty()
    } else {
        seq![initial] + swap_returns(installed[0], installed.drop_first())
    }
}

/// The value left in a cell holding `initial` after the values of `installed`
/// are installed in order.
pub open spec fn last_installed<T>(initial: T, installed: Seq<T>) -> T {
    if installed.len() == 0 {
        initial
    } else {
        installed.last()
    }
}

/// A run of swaps loses nothing and invents nothing, in the strongest order-
/// preserving form: the returned previous values, followed by the value left
/// in the cell, are exactly the initial value followed by every installed
/// value.
proof fn lemma_swap_returns_chain<T>(initial: T, installed: Seq<T>)
    ensures
        swap_returns(initial, installed).push(last_installed(initial, installed)) =~= seq![
            initial,
        ] + installed,
    decreases installed.len(),
{
    if installed.len() > 0 {
        let rest = installed.drop_first();
        lemma_swap_returns_chain(installed[0], rest);
        assert(last_installed(initial, installed) == last_installed(installed[0], rest));
        assert((seq![initial] + swap_returns(installed[0], rest)).push(
            last_installed(installed[0], rest),
        ) =~= seq![initial] + swap_returns(installed[0], rest).push(
            last_installed(installed[0], rest),
        ));
        assert(seq![initial] + (seq![installed[0]] + rest) =~= seq![initial] + installed);
    }
}

/// No swap loses or duplicates a value: over any run of swaps, the multiset of
/// previous values the swaps return, together with the value finally left in
/// the cell, equals the multiset of every value ever installed, together with
/// the initial value. Because the run may list the installed values in any
/// order, this covers every order in which competing swappers can be
/// serialized.
pub proof fn lemma_swap_accounting<T>(initial: T, installed: Seq<T>)
    ensures
        swap_returns(initial, installed).to_multiset().insert(
            last_installed(initial, installed),
        ) == installed.to_multiset().insert(initial),
{
    broadcast use vstd::seq_lib::to_multiset_build;
    broadcast use vstd::seq_lib::lemma_multiset_commutative;
    broadcast use vstd::multiset::group_multiset_axioms;

    let prevs = swap_returns(initial, installed);
    let last = last_installed(initial, installed);
    lemma_swap_returns_chain(initial, installed);
    assert(prevs.push(last).to_multiset() =~= prevs.to_multiset().insert(last));
    assert(seq![initial] =~= Seq::<T>::empty().push(initial));
    assert(Seq::<T>::empty().to_multiset() =~= Multiset::<T>::empty()) by {
        broadcast use vstd::seq_lib::group_to_multiset_ensures;
    }
    assert((seq![initial] + installed).to_multiset() =~= seq![initial].to_multiset().add(
        installed.to_multiset(),
    ));
    assert(seq![initial].to_multiset() =~= Multiset::<T>::empty().insert(initial));
    assert(Multiset::<T>::empty().insert(initial).add(installed.to_multiset())
        =~= installed.to_multiset().insert(initial));
    assert(prevs.to_multiset().insert(last) =~= installed.to_multiset().insert(initial));
}

} // verus!
