//! Laws of values, cells and the validator.
use crate::column::{accepts, DataType};
use crate::cell::Cell;
use crate::data::Data;
use crate::datum::{is_int_datum, Datum, DatumView};
use crate::number::{encodes_int, exponent_field, fraction_field, sign_field, FRACTION_ONE};
use vstd::arithmetic::div_mod::{lemma_div_denominator, lemma_fundamental_div_mod};
use vstd::arithmetic::power2::{
    lemma2_to64,
    lemma_pow2_adds,
    lemma_pow2_pos,
    lemma_pow2_strictly_increases,
    pow2,
};
use vstd::prelude::*;

verus! {

/// A binary64 bit pattern encodes at most one integer.
pub proof fn lemma_encoding_determines_int(bits: u64, n: int, m: int)
    requires
        encodes_int(bits, n),
        encodes_int(bits, m),
    ensures
        n == m,
{
    if n != 0 && m != 0 {
        let k = (1075 - exponent_field(bits)) as nat;
        let a = if n < 0 { -n } else { n };
        let b = if m < 0 { -m } else { m };
        lemma_pow2_pos(k);
        assert(a * pow2(k) == b * pow2(k));
        assert(a == b) by (nonlinear_arith)
            requires
                a * pow2(k) == b * pow2(k),
                pow2(k) > 0,
        ;
        assert(sign_field(bits) == (if n < 0 { 1int } else { 0int }));
    } else if n == 0 && m != 0 {
        assert(bits == 0);
        assert(exponent_field(bits) == 0);
    } else if m == 0 && n != 0 {
        assert(bits == 0);
        assert(exponent_field(bits) == 0);
    }
}

/// An integer has exactly one binary64 encoding.
pub proof fn lemma_int_encoding_unique(n: int, first: u64, second: u64)
    requires
        encodes_int(first, n),
        encodes_int(second, n),
    ensures
        first == second,
{
    if n != 0 {
        let a = if n < 0 { -n } else { n };
        let e1 = exponent_field(first);
        let e2 = exponent_field(second);
        let k1 = (1075 - e1) as nat;
        let k2 = (1075 - e2) as nat;
        lemma2_to64();
        lemma_pow2_adds(32, 20);
        lemma_pow2_adds(32, 21);
        assert(fraction_field(first) < FRACTION_ONE);
        assert(fraction_field(second) < FRACTION_ONE);
        if k1 != k2 {
            let (lo, hi) = if k1 < k2 { (k1, k2) } else { (k2, k1) };
            lemma_pow2_adds(lo, (hi - lo) as nat);
            lemma_pow2_strictly_increases(0, (hi - lo) as nat);
            lemma_pow2_pos(lo);
            assert(a * pow2(hi) >= 2 * (a * pow2(lo))) by (nonlinear_arith)
                requires
                    pow2(hi) == pow2(lo) * pow2((hi - lo) as nat),
                    pow2((hi - lo) as nat) >= 2,
                    a > 0,
                    pow2(lo) > 0,
            ;
            assert(false);
        }
        let s = sign_field(first);
        let f1 = fraction_field(first);
        let f2 = fraction_field(second);
        assert(f1 == f2);
        lemma_fundamental_div_mod(first as int, FRACTION_ONE as int);
        lemma_fundamental_div_mod(second as int, FRACTION_ONE as int);
        let q1 = first as int / FRACTION_ONE as int;
        let q2 = second as int / FRACTION_ONE as int;
        lemma_fundamental_div_mod(q1, 0x800);
        lemma_fundamental_div_mod(q2, 0x800);
        lemma_div_denominator(first as int, FRACTION_ONE as int, 0x800);
        lemma_div_denominator(second as int, FRACTION_ONE as int, 0x800);
        assert(q1 / 0x800 == sign_field(first));
        assert(q2 / 0x800 == sign_field(second));
        assert(q1 == q2);
    }
}

/// Round trip: a cell built from an integer literal `n` (a cell whose value
/// is what ingesting `n` gave) reads back the one present number that denotes
/// `n`, and it denotes no other integer.
pub proof fn lemma_literal_round_trip(n: int, ingested: Datum, cell: Cell, read: Datum)
    requires
        is_int_datum(ingested@, n),
        cell.current() == ingested,
        read@ == cell@.value,
    ensures
        read@ is Num,
        forall|d: DatumView| is_int_datum(d, n) ==> d == read@,
        is_int_datum(read@, n),
        forall|m: int| is_int_datum(read@, m) ==> m == n,
{
    cell.lemma_value_is_current();
    assert forall|d: DatumView| is_int_datum(d, n) implies d == read@ by {
        if let (DatumView::Num(Some(b1)), DatumView::Num(Some(b2))) = (d, read@) {
            lemma_int_encoding_unique(n, b1, b2);
        }
    }
    assert forall|m: int| is_int_datum(read@, m) implies m == n by {
        if let DatumView::Num(Some(bits)) = read@ {
            lemma_encoding_determines_int(bits, n, m);
        }
    }
}

/// Update correctness: when `transform` maps each value to `g` of it, then
/// after a successful `update(row, col, transform)` the cell reads back `g` of
/// the value it read before, and every other cell reads as before.
pub proof fn lemma_update_reads_back_transform<F: FnOnce(Datum) -> Datum>(
    before: Data,
    after: Data,
    row: int,
    col: int,
    transform: F,
    g: spec_fn(DatumView) -> DatumView,
)
    requires
        before.in_bounds(row, col),
        after.same_except(&before, row, col),
        transform.ensures(
            (before.cell(row, col).current(),),
            after.cell(row, col).current(),
        ),
        forall|d: Datum, e: Datum| #[trigger] transform.ensures((d,), e) ==> e@ == g(d@),
    ensures
        after.value_at(row, col) == g(before.value_at(row, col)),
        forall|r: int, c: int|
            before.in_bounds(r, c) && (r != row || c != col) ==> #[trigger] after.value_at(r, c)
                == before.value_at(r, c),
{
    before.cell(row, col).lemma_value_is_current();
    after.cell(row, col).lemma_value_is_current();
    assert forall|r: int, c: int|
        before.in_bounds(r, c) && (r != row || c != col) implies #[trigger] after.value_at(r, c)
        == before.value_at(r, c) by {
        assert(after.in_bounds(r, c));
        assert(after.cell(r, c) == before.cell(r, c));
    }
}

/// The validator's verdict for every pair of type and value: `Any` accepts
/// all values, present or absent; `Number` exactly the number values;
/// `String` exactly the text values. No other pair is valid.
pub proof fn lemma_validator_table(t: DataType, v: DatumView)
    ensures
        t == DataType::Any ==> accepts(t, v),
        t == DataType::Number ==> (accepts(t, v) <==> v is Num),
        t == DataType::String ==> (accepts(t, v) <==> v is Text),
        v is Num && t == DataType::String ==> !accepts(t, v),
        v is Text && t == DataType::Number ==> !accepts(t, v),
        !accepts(t, v) ==> t != DataType::Any,
{
}

/// The verdict depends on the value and the type alone: two checks of the same
/// pair agree.
pub proof fn lemma_check_deterministic(t: DataType, datum: Datum, first: bool, second: bool)
    requires
        first == accepts(t, datum@),
        second == accepts(t, datum@),
    ensures
        first == second,
{
}

} // verus!
