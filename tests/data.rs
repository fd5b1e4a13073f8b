use leptos_datatable::cell::Cell;
use leptos_datatable::column::{check, columns_named, columns_of_type, columns_typed, Column, DataType};
use leptos_datatable::data::{Data, IndexOutOfRange, Row};
use leptos_datatable::datum::Datum;
use leptos_datatable::number::int_to_double_bits;

fn num(x: f64) -> Datum {
    Datum::Number(Some(x.to_bits()))
}

fn text(s: &str) -> Datum {
    Datum::String(Some(s.to_string()))
}

fn row_of_ints(values: &[i32]) -> Row {
    Row::new(values.iter().map(|v| Datum::from_int(*v)).collect())
}

fn scenario_columns() -> Vec<Column> {
    columns_typed(&vec![
        ("Any", DataType::Any),
        ("Number", DataType::Number),
        ("String", DataType::String),
    ])
}

fn scenario_data() -> Data {
    Data(vec![
        Row::new(vec![Datum::from_int(1), Datum::from_int(2), Datum::text("c")]),
        Row::new(vec![Datum::text("2"), Datum::from_int(3), Datum::text("d")]),
        Row::new(vec![Datum::text("a"), Datum::text("s"), Datum::text("d")]),
    ])
}

fn add_one(d: Datum) -> Datum {
    match d {
        Datum::Number(Some(bits)) => num(f64::from_bits(bits) + 1.0),
        other => other,
    }
}

#[test]
fn test_macro_columns_1() {
    let columns = columns_named(&vec!["A", "B", "C"]);
    assert_eq!(columns, vec![
        Column { name: "A".into(), data_type: DataType::Any },
        Column { name: "B".into(), data_type: DataType::Any },
        Column { name: "C".into(), data_type: DataType::Any },
    ])
}

#[test]
fn test_macro_columns_2() {
    let columns = columns_typed(&vec![("A", DataType::String), ("B", DataType::Number)]);
    assert_eq!(columns, vec![
        Column { name: "A".into(), data_type: DataType::String },
        Column { name: "B".into(), data_type: DataType::Number },
    ])
}

#[test]
fn test_macro_columns_3() {
    let columns = columns_of_type(DataType::Number, 3);
    assert_eq!(columns, vec![
        Column { name: String::new(), data_type: DataType::Number },
        Column { name: String::new(), data_type: DataType::Number },
        Column { name: String::new(), data_type: DataType::Number },
    ])
}

#[test]
fn test_macro_row() {
    let row = Row::new(vec![
        Datum::from_int(1),
        Datum::text("A"),
        Datum::from_int(2),
        Datum::text("B"),
        Datum::from_bits(3.1f64.to_bits()),
        Datum::text("c"),
        Datum::text("d"),
    ]);
    let row_data: Vec<Datum> = row.unwrap().iter().map(|cell| cell.get()).collect();
    assert_eq!(row_data, vec![
        num(1.0),
        text("A"),
        num(2.0),
        text("B"),
        num(3.1),
        text("c"),
        text("d"),
    ])
}

#[test]
fn test_data_get() {
    let data = Data(vec![row_of_ints(&[0, 1, 2]), row_of_ints(&[3, 4, 5])]);
    assert_eq!(data.get(1, 0).unwrap().get(), num(3.0));
}

#[test]
fn test_data_set() {
    let mut data = Data(vec![row_of_ints(&[0, 1, 2]), row_of_ints(&[3, 4, 5])]);
    data.set(1, 0, Datum::from_int(123123)).unwrap();
    assert_eq!(data.get(1, 0).unwrap().get(), num(123123.0));
}

#[test]
fn int_encoding_matches_float_conversion() {
    for n in [0, 1, -1, 2, 3, 7, 1000, -123123, 123123, i32::MAX, i32::MIN, 1 << 30] {
        assert_eq!(int_to_double_bits(n), (n as f64).to_bits(), "n = {}", n);
    }
}

#[test]
fn literal_round_trip_through_cell() {
    let c = Cell::new(Datum::from_int(-42));
    match c.get() {
        Datum::Number(Some(bits)) => assert_eq!(f64::from_bits(bits), -42.0),
        other => panic!("unexpected {:?}", other),
    }
    let c = Cell::new(Datum::text("héllo"));
    assert_eq!(c.get(), text("héllo"));
    let c = Cell::new(Datum::from(String::from("x")));
    assert_eq!(c.get(), text("x"));
}

#[test]
fn text_digits_stay_text() {
    assert_eq!(Datum::text("2"), text("2"));
    assert_ne!(Datum::text("2"), Datum::from_int(2));
    assert!(!check(&Datum::text("2"), DataType::Number));
}

#[test]
fn validator_table() {
    let values = [
        Datum::String(Some("a".to_string())),
        Datum::String(None),
        num(1.5),
        Datum::Number(None),
    ];
    for v in values.iter() {
        let is_num = matches!(v, Datum::Number(_));
        assert!(check(v, DataType::Any));
        assert_eq!(check(v, DataType::Number), is_num);
        assert_eq!(check(v, DataType::String), !is_num);
        assert_eq!(check(v, DataType::Number), check(v, DataType::Number));
    }
}

#[test]
fn column_accepts() {
    let c = Column::new("Number", DataType::Number);
    assert_eq!(c.name, "Number");
    assert!(c.accepts(&num(2.0)));
    assert!(!c.accepts(&text("s")));
}

#[test]
fn equality_is_bit_exact() {
    assert_ne!(num(0.0), num(-0.0));
    assert_eq!(num(f64::NAN), num(f64::NAN));
    assert_ne!(Datum::Number(None), Datum::String(None));
    assert_eq!(Datum::Number(None), Datum::Number(None));
}

#[test]
fn scenario_a_mismatches() {
    let data = scenario_data();
    let columns = scenario_columns();
    assert!(data.fits(&columns));
    assert_eq!(data.mismatches(&columns), vec![(2, 1)]);
}

#[test]
fn scenario_b_update_keeps_mismatches() {
    let mut data = scenario_data();
    let columns = scenario_columns();
    data.update(0, 1, add_one).unwrap();
    assert_eq!(data.get(0, 1).unwrap().get(), num(3.0));
    assert_eq!(data.mismatches(&columns), vec![(2, 1)]);
}

#[test]
fn update_applies_transform_to_previous_value() {
    let mut data = scenario_data();
    data.update(1, 0, |_| Datum::String(None)).unwrap();
    assert_eq!(data.get(1, 0).unwrap().get(), Datum::String(None));
    data.update(2, 2, add_one).unwrap();
    assert_eq!(data.get(2, 2).unwrap().get(), text("d"));
}

#[test]
fn notifications_are_per_cell() {
    let mut data = scenario_data();
    assert_eq!(data.get_tracked(0, 1, 7), Ok(num(2.0)));
    assert_eq!(data.get_tracked(0, 1, 7), Ok(num(2.0)));
    assert_eq!(data.get_tracked(0, 1, 8), Ok(num(2.0)));
    assert_eq!(data.get_tracked(1, 1, 9), Ok(num(3.0)));
    let mut notified = data.set(0, 1, Datum::from_int(5)).unwrap();
    notified.sort();
    assert_eq!(notified, vec![7, 8]);
    assert_eq!(data.set(1, 1, Datum::from_int(6)).unwrap(), vec![9]);
    assert_eq!(data.set(2, 2, text("z")).unwrap(), Vec::<u64>::new());
    let mut notified = data.update(0, 1, add_one).unwrap();
    notified.sort();
    assert_eq!(notified, vec![7, 8]);
    assert_eq!(data.get(0, 1).unwrap().get(), num(6.0));
}

#[test]
fn out_of_range_changes_nothing() {
    let mut data = scenario_data();
    let columns = scenario_columns();
    assert_eq!(data.get(3, 0).err(), Some(IndexOutOfRange { row: 3, col: 0 }));
    assert_eq!(data.get(0, 3).err(), Some(IndexOutOfRange { row: 0, col: 3 }));
    assert_eq!(data.set(3, 0, text("x")), Err(IndexOutOfRange { row: 3, col: 0 }));
    assert_eq!(data.update(0, 3, add_one), Err(IndexOutOfRange { row: 0, col: 3 }));
    assert_eq!(data.get_tracked(9, 9, 1), Err(IndexOutOfRange { row: 9, col: 9 }));
    assert_eq!(data.mismatches(&columns), vec![(2, 1)]);
    let values: Vec<Vec<Datum>> = data
        .unwrap()
        .iter()
        .map(|r| r.unwrap().iter().map(|c| c.get()).collect())
        .collect();
    assert_eq!(values, vec![
        vec![num(1.0), num(2.0), text("c")],
        vec![text("2"), num(3.0), text("d")],
        vec![text("a"), text("s"), text("d")],
    ]);
}

#[test]
fn ragged_rows() {
    let data = Data(vec![
        Row::new(vec![text("x"), text("y"), text("z"), num(1.0)]),
        Row::new(vec![text("a")]),
        Row::new(vec![]),
    ]);
    let columns = columns_of_type(DataType::Number, 2);
    assert!(!data.fits(&columns));
    assert_eq!(data.mismatches(&columns), vec![(0, 0), (0, 1), (1, 0)]);
    assert!(data.get(1, 1).is_err());
    assert!(Data(vec![]).fits(&columns));
    assert_eq!(Data(vec![]).mismatches(&columns), Vec::<(usize, usize)>::new());
}

#[test]
fn repeated_increments_keep_mismatch_set() {
    let mut data = scenario_data();
    let columns = scenario_columns();
    for k in 1..=5 {
        data.update(0, 1, add_one).unwrap();
        assert_eq!(data.get(0, 1).unwrap().get(), num(2.0 + k as f64));
        assert_eq!(data.mismatches(&columns), vec![(2, 1)]);
    }
    data.update(2, 1, add_one).unwrap();
    assert_eq!(data.get(2, 1).unwrap().get(), text("s"));
    data.update(1, 1, |d| d).unwrap();
    assert_eq!(data.get(1, 1).unwrap().get(), num(3.0));
}
