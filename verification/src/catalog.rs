//! The catalog of known, syntactically valid port labels.
//!
//! One pass over the port table keeps, in row order, every label that
//! matches the validity pattern; front ends use the list to populate a
//! selection aid.

use crate::label::{is_valid_label, valid_label};
use crate::store::{Port, Store};
use vstd::prelude::*;

verus! {

/// The labels the catalog yields for a port table: the notes of every row
/// whose notes are a valid label, in row order.
pub open spec fn catalog_model(ports: Seq<Port>) -> Seq<Seq<char>>
    decreases ports.len(),
{
    if ports.len() == 0 {
        Seq::empty()
    } else {
        let rest = catalog_model(ports.drop_last());
        if valid_label(ports.last().notes@) {
            rest.push(ports.last().notes@)
        } else {
            rest
        }
    }
}

/// The notes column of a port table, in row order.
pub open spec fn notes_of(ports: Seq<Port>) -> Seq<Seq<char>> {
    ports.map_values(|p: Port| p.notes@)
}

/// How many times a label occurs in a list of labels.
pub open spec fn count_of(labels: Seq<Seq<char>>, l: Seq<char>) -> nat
    decreases labels.len(),
{
    if labels.len() == 0 {
        0
    } else {
        (if labels.last() == l {
            1nat
        } else {
            0nat
        }) + count_of(labels.drop_last(), l)
    }
}

/// Lists all syntactically valid wall-socket labels present in the store,
/// in the store's row order.  An empty result is not an error.
pub fn queryall(store: &Store) -> (r: Vec<String>)
    ensures
        r@.map_values(|s: String| s@) == catalog_model(store.ports@),
{
    let mut out: Vec<String> = Vec::new();
    let n = store.ports.len();
    let mut i: usize = 0;
    while i < n
        invariant
            i <= n,
            n == store.ports@.len(),
            out@.map_values(|s: String| s@) == catalog_model(store.ports@.take(i as int)),
        decreases n - i,
    {
        let ghost prev = out@;
        let p = &store.ports[i];
        if is_valid_label(p.notes.as_str()) {
            out.push(p.notes.clone());
        }
        proof {
            let taken = store.ports@.take(i + 1);
            assert(taken.drop_last() =~= store.ports@.take(i as int));
            assert(taken.last() == store.ports@[i as int]);
            if valid_label(store.ports@[i as int].notes@) {
                assert(out@.map_values(|s: String| s@) =~= prev.map_values(|s: String| s@).push(
                    store.ports@[i as int].notes@,
                ));
            }
        }
        i = i + 1;
    }
    proof {
        assert(store.ports@.take(n as int) =~= store.ports@);
    }
    out
}

/// A valid label is listed exactly as often as it occurs in the notes
/// column, and an invalid one is never listed.  With a fixture that has no
/// duplicate rows, a valid label present in the store is listed exactly
/// once, and every label not matching the pattern is absent.
pub proof fn lemma_catalog_counts(ports: Seq<Port>, l: Seq<char>)
    ensures
        count_of(catalog_model(ports), l) == if valid_label(l) {
            count_of(notes_of(ports), l)
        } else {
            0
        },
    decreases ports.len(),
{
    if ports.len() == 0 {
    } else {
        lemma_catalog_counts(ports.drop_last(), l);
        assert(notes_of(ports).drop_last() =~= notes_of(ports.drop_last()));
        assert(notes_of(ports).last() == ports.last().notes@);
        let rest = catalog_model(ports.drop_last());
        if valid_label(ports.last().notes@) {
            assert(rest.push(ports.last().notes@).drop_last() =~= rest);
            assert(rest.push(ports.last().notes@).last() == ports.last().notes@);
        }
    }
}

} // verus!
