//! Arithmetic instructions: the addition instruction and its
//! partial-information semantics.

use vstd::prelude::*;

use crate::fp::{add_bits, sum_bits};
use crate::simulator::{
    lemma_iota_vals, iota_val, iota_vals, ActionError, ConstLenAction, Iota, IotaVal, VectorIota,
};

verus! {

/// The addition instruction: consumes the two topmost operands.
pub struct Add;

/// What addition leaves on the stack, by operand tags. Type mismatches
/// fault the branch; unknown numeric content degrades the result to
/// unknown without changing its tag; a vector's range guarantee is never
/// upgraded. A sum of two vectors is component-wise, and unknown content
/// on either side makes it an unknown vector with no range guarantee;
/// an unknown left vector passes through unchanged.
pub open spec fn add_out(operands: Seq<IotaVal>) -> Seq<Result<Seq<IotaVal>, ActionError>> {
    seq![
        match operands[0] {
            IotaVal::Double(d0) => match d0 {
                Some(a) => match operands[1] {
                    IotaVal::Double(d1) => Ok(
                        seq![
                            IotaVal::Double(
                                match d1 {
                                    Some(b) => Some(sum_bits(a, b)),
                                    None => None,
                                },
                            ),
                        ],
                    ),
                    IotaVal::Vector(v1) => Ok(
                        seq![
                            IotaVal::Vector(
                                match v1 {
                                    VectorIota::Known(x, y, z) => VectorIota::Known(
                                        sum_bits(x, a),
                                        sum_bits(y, a),
                                        sum_bits(z, a),
                                    ),
                                    VectorIota::Unknown(f) => VectorIota::Unknown(f),
                                },
                            ),
                        ],
                    ),
                    _ => Err(ActionError::InvalidType),
                },
                None => Ok(seq![IotaVal::Double(None)]),
            },
            IotaVal::Vector(v0) => match v0 {
                VectorIota::Known(x, y, z) => match operands[1] {
                    IotaVal::Double(d1) => match d1 {
                        Some(b) => Ok(
                            seq![
                                IotaVal::Vector(
                                    VectorIota::Known(sum_bits(x, b), sum_bits(y, b), sum_bits(z, b)),
                                ),
                            ],
                        ),
                        None => Ok(seq![IotaVal::Vector(VectorIota::Unknown(false))]),
                    },
                    IotaVal::Vector(v1) => Ok(
                        seq![
                            IotaVal::Vector(
                                match v1 {
                                    VectorIota::Known(x1, y1, z1) => VectorIota::Known(
                                        sum_bits(x, x1),
                                        sum_bits(y, y1),
                                        sum_bits(z, z1),
                                    ),
                                    VectorIota::Unknown(_) => VectorIota::Unknown(false),
                                },
                            ),
                        ],
                    ),
                    _ => Err(ActionError::InvalidType),
                },
                VectorIota::Unknown(f) => Ok(seq![IotaVal::Vector(VectorIota::Unknown(f))]),
            },
            _ => Err(ActionError::InvalidType),
        },
    ]
}

/// Adding two known doubles yields exactly one branch: their sum, known.
pub proof fn lemma_add_known_doubles(a: u64, b: u64)
    ensures
        add_out(seq![IotaVal::Double(Some(a)), IotaVal::Double(Some(b))]) == seq![
            Ok::<Seq<IotaVal>, ActionError>(seq![IotaVal::Double(Some(sum_bits(a, b)))]),
        ],
{
}

/// Adding an unknown double on the right of a known one yields one branch:
/// the unknown double.
pub proof fn lemma_add_unknown_double_right(a: u64)
    ensures
        add_out(seq![IotaVal::Double(Some(a)), IotaVal::Double(None)]) == seq![
            Ok::<Seq<IotaVal>, ActionError>(seq![IotaVal::Double(None)]),
        ],
{
}

/// An unknown double on the left collapses the sum to the unknown double,
/// whatever stands on the right.
pub proof fn lemma_add_unknown_double_left(v: IotaVal)
    ensures
        add_out(seq![IotaVal::Double(None), v]) == seq![
            Ok::<Seq<IotaVal>, ActionError>(seq![IotaVal::Double(None)]),
        ],
{
}

/// A known double plus a known vector adds the double to each component,
/// and gives the same single branch in either operand order.
pub proof fn lemma_add_double_vector_commutes(d: u64, x: u64, y: u64, z: u64)
    ensures
        add_out(seq![IotaVal::Double(Some(d)), IotaVal::Vector(VectorIota::Known(x, y, z))])
            == add_out(
            seq![IotaVal::Vector(VectorIota::Known(x, y, z)), IotaVal::Double(Some(d))],
        ),
        add_out(seq![IotaVal::Double(Some(d)), IotaVal::Vector(VectorIota::Known(x, y, z))])
            == seq![
            Ok::<Seq<IotaVal>, ActionError>(
                seq![
                    IotaVal::Vector(
                        VectorIota::Known(sum_bits(x, d), sum_bits(y, d), sum_bits(z, d)),
                    ),
                ],
            ),
        ],
{
}

/// No arithmetic is defined on a pattern: a pattern on the left faults the
/// branch with `InvalidType`.
pub proof fn lemma_add_pattern_faults(p: crate::hex_pattern::PatternVal, v: IotaVal)
    ensures
        add_out(seq![IotaVal::Pattern(p), v]) == seq![
            Err::<Seq<IotaVal>, ActionError>(ActionError::InvalidType),
        ],
{
}

/// On a stack holding exactly two known doubles, the addition instruction
/// leads to exactly one branch: a live world whose stack holds their sum
/// and whose ravenmind is untouched.
pub proof fn lemma_add_two_doubles_transition(a: u64, b: u64, rm: Option<IotaVal>)
    ensures
        crate::simulator::Action::transition(
            &Add,
            crate::simulator::StackVal {
                stack: seq![IotaVal::Double(Some(a)), IotaVal::Double(Some(b))],
                ravenmind: rm,
            },
        ) == seq![
            Ok::<crate::simulator::StackVal, ActionError>(
                crate::simulator::StackVal {
                    stack: seq![IotaVal::Double(Some(sum_bits(a, b)))],
                    ravenmind: rm,
                },
            ),
        ],
{
    let s = crate::simulator::StackVal {
        stack: seq![IotaVal::Double(Some(a)), IotaVal::Double(Some(b))],
        ravenmind: rm,
    };
    assert(s.stack.skip(0) =~= s.stack);
    lemma_add_known_doubles(a, b);
    let mapped = add_out(s.stack).map_values(
        |r: Result<Seq<IotaVal>, ActionError>|
            match r {
                Ok(out) => Ok(
                    crate::simulator::StackVal { stack: s.stack.take(0) + out, ravenmind: rm },
                ),
                Err(e) => Err(e),
            },
    );
    assert(s.stack.take(0) + seq![IotaVal::Double(Some(sum_bits(a, b)))] =~= seq![
        IotaVal::Double(Some(sum_bits(a, b))),
    ]);
    assert(mapped =~= seq![
        Ok::<crate::simulator::StackVal, ActionError>(
            crate::simulator::StackVal {
                stack: seq![IotaVal::Double(Some(sum_bits(a, b)))],
                ravenmind: rm,
            },
        ),
    ]);
}

/// A one-element operand replacement.
fn one(i: Iota) -> (v: Vec<Iota>)
    ensures
        iota_vals(v@) == seq![iota_val(i)],
{
    let ghost gi = iota_val(i);
    let v = vec![i];
    proof {
        lemma_iota_vals(v@);
        assert(iota_vals(v@) =~= seq![gi]);
    }
    v
}

impl ConstLenAction for Add {
    open spec fn arity() -> nat {
        2
    }

    open spec fn out_spec(&self, operands: Seq<IotaVal>) -> Seq<
        Result<Seq<IotaVal>, ActionError>,
    > {
        add_out(operands)
    }

    fn len() -> (n: usize) {
        2
    }

    fn apply(&self, iotas: &[Iota]) -> (out: Vec<Result<Vec<Iota>, ActionError>>) {
        proof {
            lemma_iota_vals(iotas@);
        }
        let a0 = vstd::slice::slice_index_get(iotas, 0);
        let a1 = vstd::slice::slice_index_get(iotas, 1);
        let result: Result<Vec<Iota>, ActionError> = match a0 {
            Iota::Double(d0) => match d0 {
                Some(a) => match a1 {
                    Iota::Double(d1) => Ok(
                        one(
                            Iota::Double(
                                match d1 {
                                    Some(b) => Some(add_bits(*a, *b)),
                                    None => None,
                                },
                            ),
                        ),
                    ),
                    Iota::Vector(v1) => Ok(
                        one(
                            Iota::Vector(
                                match v1 {
                                    VectorIota::Known(x, y, z) => VectorIota::Known(
                                        add_bits(*x, *a),
                                        add_bits(*y, *a),
                                        add_bits(*z, *a),
                                    ),
                                    VectorIota::Unknown(f) => VectorIota::Unknown(*f),
                                },
                            ),
                        ),
                    ),
                    _ => Err(ActionError::InvalidType),
                },
                None => Ok(one(Iota::Double(None))),
            },
            Iota::Vector(v0) => match v0 {
                VectorIota::Known(x, y, z) => match a1 {
                    Iota::Double(d1) => match d1 {
                        Some(b) => Ok(
                            one(
                                Iota::Vector(
                                    VectorIota::Known(
                                        add_bits(*x, *b),
                                        add_bits(*y, *b),
                                        add_bits(*z, *b),
                                    ),
                                ),
                            ),
                        ),
                        None => Ok(one(Iota::Vector(VectorIota::Unknown(false)))),
                    },
                    Iota::Vector(v1) => Ok(
                        one(
                            Iota::Vector(
                                match v1 {
                                    VectorIota::Known(x1, y1, z1) => VectorIota::Known(
                                        add_bits(*x, *x1),
                                        add_bits(*y, *y1),
                                        add_bits(*z, *z1),
                                    ),
                                    VectorIota::Unknown(_) => VectorIota::Unknown(false),
                                },
                            ),
                        ),
                    ),
                    _ => Err(ActionError::InvalidType),
                },
                VectorIota::Unknown(f) => Ok(one(Iota::Vector(VectorIota::Unknown(*f)))),
            },
            _ => Err(ActionError::InvalidType),
        };
        let ghost res_val = match &result {
            Ok(v) => Ok::<Seq<IotaVal>, ActionError>(iota_vals(v@)),
            Err(e) => Err(*e),
        };
        let out = vec![result];
        proof {
            assert(crate::simulator::out_vals(out@) =~= seq![res_val]);
            assert(seq![res_val] =~= add_out(iota_vals(iotas@)));
        }
        out
    }
}

} // verus!
