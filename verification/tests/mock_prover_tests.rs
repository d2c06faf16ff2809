use circuit_trace::addition::{TestCircuit, TestConfig};
use circuit_trace::checker::{check, Verdict};
use circuit_trace::circuit::run;
use circuit_trace::field::Field;
use circuit_trace::pasta::Fp;
use circuit_trace::value::Value;
use halo2_proofs::circuit::{Layouter, SimpleFloorPlanner};
use halo2_proofs::dev::MockProver;
use halo2_proofs::pasta::group::ff::PrimeField;
use halo2_proofs::plonk::{Advice, Circuit, Column, ConstraintSystem, Error, Instance, Selector};
use halo2_proofs::poly::Rotation;

type OutsideFp = halo2_proofs::pasta::Fp;
type OutsideValue = halo2_proofs::circuit::Value<OutsideFp>;

/// The addition circuit written against the outside proving system.
#[derive(Clone, Default)]
struct Outside {
    x: OutsideValue,
    y: OutsideValue,
    enable: bool,
    forged: Option<OutsideFp>,
}

#[derive(Clone)]
struct OutsideConfig {
    x: Column<Advice>,
    y: Column<Advice>,
    instance: Column<Instance>,
    selector: Selector,
}

impl Circuit<OutsideFp> for Outside {
    type Config = OutsideConfig;
    type FloorPlanner = SimpleFloorPlanner;

    fn without_witnesses(&self) -> Self {
        Self::default()
    }

    fn configure(meta: &mut ConstraintSystem<OutsideFp>) -> OutsideConfig {
        let x = meta.advice_column();
        let y = meta.advice_column();
        let instance = meta.instance_column();
        let selector = meta.selector();
        meta.enable_equality(x);
        meta.enable_equality(y);
        meta.enable_equality(instance);
        meta.create_gate("addition", |meta| {
            let advice_x = meta.query_advice(x, Rotation::cur());
            let advice_y = meta.query_advice(y, Rotation::cur());
            let out = meta.query_advice(x, Rotation::next());
            let s = meta.query_selector(selector);
            vec![s * (advice_x + advice_y - out)]
        });
        OutsideConfig { x, y, instance, selector }
    }

    fn synthesize(
        &self,
        config: OutsideConfig,
        mut layouter: impl Layouter<OutsideFp>,
    ) -> Result<(), Error> {
        let out = layouter.assign_region(
            || "addition",
            |mut region| {
                let x = region.assign_advice(|| "x", config.x, 0, || self.x)?;
                let y = region.assign_advice(|| "y", config.y, 0, || self.y)?;
                if self.enable {
                    config.selector.enable(&mut region, 0)?;
                }
                let value = match self.forged {
                    Some(out) => OutsideValue::known(out),
                    None => x.value().copied() + y.value().copied(),
                };
                region.assign_advice(|| "out", config.x, 1, || value)
            },
        )?;
        layouter.constrain_instance(out.cell(), config.instance, 0)
    }
}

fn outside(v: Fp) -> OutsideFp {
    OutsideFp::from_repr(v.to_repr()).unwrap()
}

fn outside_accepts(x: Fp, y: Fp, public: Fp) -> bool {
    let circuit = Outside {
        x: OutsideValue::known(outside(x)),
        y: OutsideValue::known(outside(y)),
        enable: true,
        forged: None,
    };
    let prover = MockProver::run(4, &circuit, vec![vec![outside(public)]]).unwrap();
    prover.verify().is_ok()
}

fn library_accepts(x: Fp, y: Fp, public: Fp) -> bool {
    let circuit = TestCircuit { x: Value::known(x), y: Value::known(y) };
    matches!(run(4, &circuit, &vec![vec![public]]), Ok(Verdict::Satisfied))
}

#[test]
fn the_mock_prover_agrees_on_the_worked_example() {
    let (two, three) = (Fp::from_u64(2), Fp::from_u64(3));
    assert!(outside_accepts(two, three, Fp::from_u64(5)));
    assert!(library_accepts(two, three, Fp::from_u64(5)));
    assert!(!outside_accepts(two, three, Fp::from_u64(6)));
    assert!(!library_accepts(two, three, Fp::from_u64(6)));
}

#[test]
fn the_mock_prover_agrees_on_many_inputs() {
    let values: [Fp; 5] = [
        Fp::from_u64(0),
        Fp::from_u64(1),
        Fp::from_u64(u64::MAX),
        Fp::from_u64(1).neg(),
        Fp::from_u64(12345).mul(&Fp::from_u64(u64::MAX)),
    ];
    for x in values {
        for y in values {
            for public in [x.add(&y), x, x.add(&y).add(&Fp::from_u64(1))] {
                assert_eq!(library_accepts(x, y, public), outside_accepts(x, y, public));
                assert_eq!(library_accepts(x, y, public), x.add(&y).is_equal(&public));
            }
        }
    }
}

#[test]
fn the_mock_prover_agrees_that_an_omitted_selector_is_satisfied() {
    let circuit = Outside {
        x: OutsideValue::known(OutsideFp::from(2)),
        y: OutsideValue::known(OutsideFp::from(3)),
        enable: false,
        forged: None,
    };
    let prover = MockProver::run(4, &circuit, vec![vec![OutsideFp::from(5)]]).unwrap();
    assert!(prover.verify().is_ok());
}

/// Whether each of the two accepts the trace in which `out` stands below `x`.
fn both_accept(x: u64, y: u64, out: u64, enable: bool, public: u64) -> (bool, bool) {
    let circuit = Outside {
        x: OutsideValue::known(OutsideFp::from(x)),
        y: OutsideValue::known(OutsideFp::from(y)),
        enable,
        forged: Some(OutsideFp::from(out)),
    };
    let prover = MockProver::run(4, &circuit, vec![vec![OutsideFp::from(public)]]).unwrap();

    let mut cs: circuit_trace::system::ConstraintSystem<Fp> =
        circuit_trace::system::ConstraintSystem::new();
    let config = TestConfig::configure(&mut cs);
    let mut layouter = circuit_trace::layouter::Layouter::new(&cs, 4).unwrap();
    let mut region = layouter.region("addition");
    region.assign_advice(config.x, 0, Value::known(Fp::from_u64(x))).unwrap();
    region.assign_advice(config.y, 0, Value::known(Fp::from_u64(y))).unwrap();
    if enable {
        config.selector.enable(&mut region, 0).unwrap();
    }
    let cell = region.assign_advice(config.x, 1, Value::known(Fp::from_u64(out))).unwrap();
    layouter.assign_region(region).unwrap();
    layouter.constrain_instance(cell.cell(), config.instance, 0).unwrap();
    let trace = layouter.finish(&vec![vec![Fp::from_u64(public)]]).unwrap();
    (check(&cs, &trace) == Ok(Verdict::Satisfied), prover.verify().is_ok())
}

#[test]
fn the_mock_prover_agrees_on_forged_sums() {
    assert_eq!(both_accept(2, 3, 5, true, 5), (true, true));
    assert_eq!(both_accept(2, 3, 6, true, 6), (false, false));
    assert_eq!(both_accept(2, 3, 6, true, 5), (false, false));
    assert_eq!(both_accept(2, 3, 5, true, 6), (false, false));
    assert_eq!(both_accept(2, 3, 6, false, 6), (true, true));
    assert_eq!(both_accept(2, 3, 6, false, 5), (false, false));
    assert_eq!(both_accept(0, 0, 0, true, 0), (true, true));
}
