//! The contract between a circuit and the engine, and the run that takes a
//! circuit from its declaration to a verdict.

use vstd::prelude::*;
use crate::checker::{check, failures, gates_declared, Failure, Verdict};
use crate::error::Error;
use crate::field::Field;
use crate::layouter::{row_count, LayoutView, Layouter};
use crate::system::{ConstraintSystem, SystemView};
use crate::trace::table;

verus! {

/// A circuit: a shape that is declared once, and a witness that is laid out
/// in a trace.
pub trait Circuit<F: Field>: Sized {
    /// The handles to the columns and selectors that the circuit declares.
    type Config;

    /// The constraint system that `configure` makes of an empty one.
    spec fn shape() -> SystemView<F>;

    /// The handles that `configure` returns for an empty constraint system.
    spec fn config() -> Self::Config;

    /// What `synthesize` makes of a layout: the new layout, or the error that
    /// it fails with.
    spec fn synthesized(&self, config: Self::Config, before: LayoutView) -> Result<
        LayoutView,
        Error,
    >;

    /// The circuit of the same shape whose witnesses are all unknown.
    spec fn blank(&self) -> Self;

    /// The same circuit with every witness unknown.
    fn without_witnesses(&self) -> (r: Self)
        ensures
            r == self.blank(),
    ;

    /// Declares the columns, selectors and gates of the circuit. What is
    /// declared does not depend on any witness.
    fn configure(meta: &mut ConstraintSystem<F>) -> (config: Self::Config)
        requires
            old(meta)@ == SystemView::<F>::empty(),
        ensures
            final(meta)@ == Self::shape(),
            config == Self::config(),
    ;

    /// Assigns the witness to the trace and registers the equality
    /// constraints.
    fn synthesize(&self, config: Self::Config, layouter: &mut Layouter<'_, F>) -> (r: Result<
        (),
        Error,
    >)
        requires
            old(layouter).wf(),
        ensures
            final(layouter).wf(),
            final(layouter).system() == old(layouter).system(),
            match self.synthesized(config, old(layouter)@) {
                Ok(after) => r is Ok && final(layouter)@ == after,
                Err(e) => r is Err && r->Err_0 == e,
            },
    ;
}

/// What running `circuit` on a trace of two to the `k` rows with the public
/// inputs `instance` comes to: the checker's report, or the error that stops
/// the run before anything is checked.
pub open spec fn outcome<F: Field, C: Circuit<F>>(circuit: C, k: nat, instance: Seq<Seq<nat>>)
    -> Result<Seq<Failure>, Error> {
    if row_count(k) > usize::MAX {
        Err(Error::AssignmentError)
    } else {
        match circuit.synthesized(C::config(), LayoutView::fresh(C::shape(), row_count(k))) {
            Err(e) => Err(e),
            Ok(layout) => {
                if !layout.finalizable(instance) {
                    Err(Error::AssignmentError)
                } else if !gates_declared(C::shape(), layout.finalized(instance)) {
                    Err(Error::ConfigurationError)
                } else {
                    Ok(failures(C::shape(), layout.finalized(instance)))
                }
            },
        }
    }
}

/// Declares `circuit`, lays out its witness in a trace of two to the `k`
/// rows, finalizes the trace with the public inputs `instance` and checks it.
///
/// Configuration and assignment errors stop the run; constraint violations
/// are reported in the verdict.
pub fn run<F: Field, C: Circuit<F>>(k: u32, circuit: &C, instance: &Vec<Vec<F>>) -> (r: Result<
    Verdict,
    Error,
>)
    ensures
        match outcome(*circuit, k as nat, table(instance@)) {
            Ok(report) => r is Ok && r->Ok_0@ == report && (r->Ok_0 is Satisfied <==> report.len()
                == 0),
            Err(e) => r is Err && r->Err_0 == e,
        },
{
    let mut system = ConstraintSystem::new();
    let config = C::configure(&mut system);
    let mut layouter = match Layouter::new(&system, k) {
        Ok(layouter) => layouter,
        Err(e) => {
            return Err(e);
        },
    };
    match circuit.synthesize(config, &mut layouter) {
        Ok(_) => {},
        Err(e) => {
            return Err(e);
        },
    }
    let trace = match layouter.finish(instance) {
        Ok(trace) => trace,
        Err(e) => {
            return Err(e);
        },
    };
    check(&system, &trace)
}

} // verus!
