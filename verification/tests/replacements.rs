use mc_pointy::convert_json_dirty;
use mc_pointy::replacements::convert::is_convertible;
use mc_pointy::replacements::number::parse_i64;
use mc_pointy::replacements::{
    BlockData, BlockId, BlockReplacement, JsonValue, Replacements, ValOrAny,
};

fn null() -> JsonValue {
    JsonValue { text: "null".to_string(), as_i64: None, as_bool: None, entries: None }
}

fn num(n: i64) -> JsonValue {
    JsonValue { text: n.to_string(), as_i64: Some(n), as_bool: None, entries: None }
}

fn boolean(b: bool) -> JsonValue {
    JsonValue { text: b.to_string(), as_i64: None, as_bool: Some(b), entries: None }
}

fn string(s: &str) -> JsonValue {
    JsonValue { text: format!("\"{}\"", s), as_i64: None, as_bool: None, entries: None }
}

fn object(members: Vec<(&str, JsonValue)>) -> JsonValue {
    let inner: Vec<String> =
        members.iter().map(|(k, v)| format!("\"{}\":{}", k, v.text)).collect();
    JsonValue {
        text: format!("{{{}}}", inner.join(",")),
        as_i64: None,
        as_bool: None,
        entries: Some(members.into_iter().map(|(k, v)| (k.to_string(), v)).collect()),
    }
}

fn rule(to_id: i64, to_data: i64) -> JsonValue {
    object(vec![("toData", num(to_data)), ("toID", num(to_id))])
}

fn plain(title: &str, to_id: Option<i64>, to_data: Option<i64>) -> BlockReplacement {
    BlockReplacement {
        title: title.to_string(),
        to_id,
        to_data,
        add_data: None,
        delete: false,
        from_nbt: Vec::new(),
        to_nbt: Vec::new(),
    }
}

#[test]
fn key_reads_star_and_numbers() {
    assert_eq!(ValOrAny::from_key("*"), Some(ValOrAny::Any));
    assert_eq!(ValOrAny::from_key("5"), Some(ValOrAny::Val(5)));
    assert_eq!(ValOrAny::from_key("-12"), Some(ValOrAny::Val(-12)));
    assert_eq!(ValOrAny::from_key("+7"), Some(ValOrAny::Val(7)));
    assert_eq!(ValOrAny::from_key("007"), Some(ValOrAny::Val(7)));
    assert_eq!(ValOrAny::from_key("-0"), Some(ValOrAny::Val(0)));
    for bad in ["", "-", "+", "**", "*1", "abc", "12a", " 1", "1 ", "1.0", "--1", "+-1", "0x10", "１２"] {
        assert_eq!(ValOrAny::from_key(bad), None);
    }
}

#[test]
fn key_writes_star_and_numbers() {
    assert_eq!(ValOrAny::Any.to_key(), "*");
    assert_eq!(ValOrAny::Val(0).to_key(), "0");
    assert_eq!(ValOrAny::Val(35).to_key(), "35");
    assert_eq!(ValOrAny::Val(-1).to_key(), "-1");
    assert_eq!(ValOrAny::Val(i64::MAX).to_key(), "9223372036854775807");
    assert_eq!(ValOrAny::Val(i64::MIN).to_key(), "-9223372036854775808");
}

#[test]
fn key_text_reads_back() {
    for key in [
        ValOrAny::Any,
        ValOrAny::Val(0),
        ValOrAny::Val(1),
        ValOrAny::Val(-1),
        ValOrAny::Val(10),
        ValOrAny::Val(-100),
        ValOrAny::Val(i64::MAX),
        ValOrAny::Val(i64::MIN),
    ] {
        assert_eq!(ValOrAny::from_key(&key.to_key()), Some(key));
    }
}

#[test]
fn integer_text_at_the_ends_of_the_range() {
    assert_eq!(parse_i64("9223372036854775807"), Some(i64::MAX));
    assert_eq!(parse_i64("9223372036854775808"), None);
    assert_eq!(parse_i64("-9223372036854775808"), Some(i64::MIN));
    assert_eq!(parse_i64("-9223372036854775809"), None);
    assert_eq!(parse_i64("+9223372036854775807"), Some(i64::MAX));
    assert_eq!(parse_i64("99999999999999999999999"), None);
    assert_eq!(parse_i64("000000000000000000000000000001"), Some(1));
    assert_eq!(parse_i64("-000000000000000000000000000000"), Some(0));
}

#[test]
fn integer_text_reads_as_the_standard_parser_does() {
    for s in [
        "0", "1", "-1", "+1", "42", "-42", "", "-", "+", "a", "1a", "a1", "٣", "1_000", "1e3",
        "18446744073709551615", "-18446744073709551615", "9223372036854775806", "00", "+0",
        "-+1", "1-", "1+", " ", "\n1", "1\n", "９",
    ] {
        assert_eq!(parse_i64(s), s.parse::<i64>().ok());
    }
}

#[test]
fn member_is_found_by_name() {
    let v = object(vec![("a", num(1)), ("b", boolean(true)), ("a", num(2))]);
    assert_eq!(v.member("a"), Some(&num(1)));
    assert_eq!(v.member("b"), Some(&boolean(true)));
    assert_eq!(v.member("c"), None);
    assert_eq!(v.member(""), None);
    assert_eq!(num(3).member("a"), None);
    assert!(v.is_object());
    assert!(!num(3).is_object());
    assert!(object(vec![]).is_object());
}

#[test]
fn replacement_takes_the_given_title() {
    let r = BlockReplacement::new(Some("stone to dirt".to_string()), &rule(3, 0));
    assert_eq!(r, plain("stone to dirt", Some(3), Some(0)));
}

#[test]
fn replacement_without_title_is_named_by_id_and_data() {
    assert_eq!(BlockReplacement::new(None, &rule(35, 14)), plain("35:14", Some(35), Some(14)));
    assert_eq!(
        BlockReplacement::new(None, &object(vec![("toID", num(-7))])),
        plain("-7:null", Some(-7), None)
    );
    assert_eq!(BlockReplacement::new(None, &object(vec![])), plain("null:null", None, None));
    assert_eq!(BlockReplacement::new(None, &num(5)), plain("null:null", None, None));
    assert_eq!(
        BlockReplacement::new(None, &object(vec![("toData", string("x")), ("toID", boolean(true))])),
        plain("true:\"x\"", None, None)
    );
}

#[test]
fn replacement_reads_every_member() {
    let data = object(vec![
        ("adjustData", num(4)),
        ("delete", boolean(true)),
        ("fromNBT", object(vec![("id", string("Chest")), ("Lock", num(1))])),
        ("toData", num(2)),
        ("toID", num(54)),
        ("toNBT", object(vec![("id", string("Barrel"))])),
    ]);
    let r = BlockReplacement::new(None, &data);
    assert_eq!(
        r,
        BlockReplacement {
            title: "54:2".to_string(),
            to_id: Some(54),
            to_data: Some(2),
            add_data: Some(4),
            delete: true,
            from_nbt: vec![
                ("id".to_string(), "\"Chest\"".to_string()),
                ("Lock".to_string(), "1".to_string()),
            ],
            to_nbt: vec![("id".to_string(), "\"Barrel\"".to_string())],
        }
    );
}

#[test]
fn replacement_ignores_members_of_the_wrong_type() {
    let data = object(vec![
        ("addData", num(9)),
        ("adjustData", string("4")),
        ("delete", num(1)),
        ("fromNBT", num(3)),
        ("toNBT", string("x")),
    ]);
    let r = BlockReplacement::new(Some("t".to_string()), &data);
    assert_eq!(r, plain("t", None, None));
}

#[test]
fn table_insert_replaces_an_entry_with_the_same_key() {
    let mut table = BlockId::new(ValOrAny::Val(1));
    assert_eq!(table.get(ValOrAny::Any), None);
    table.insert(BlockData { data: ValOrAny::Any, block_replacement: vec![] });
    table.insert(BlockData {
        data: ValOrAny::Val(2),
        block_replacement: vec![plain("a", None, None)],
    });
    table.insert(BlockData {
        data: ValOrAny::Any,
        block_replacement: vec![plain("b", Some(1), None)],
    });
    assert_eq!(table.block_data.len(), 2);
    assert_eq!(table.get(ValOrAny::Any).unwrap().block_replacement, vec![plain("b", Some(1), None)]);
    assert_eq!(table.get(ValOrAny::Val(2)).unwrap().block_replacement, vec![plain("a", None, None)]);
    assert_eq!(table.get(ValOrAny::Val(3)), None);
    assert_eq!(table.id, ValOrAny::Val(1));
}

#[test]
fn tables_insert_replaces_a_table_with_the_same_id() {
    let mut all = Replacements::new();
    assert_eq!(all.get(ValOrAny::Val(1)), None);
    all.insert(BlockId::new(ValOrAny::Val(1)));
    all.insert(BlockId::new(ValOrAny::Any));
    let mut again = BlockId::new(ValOrAny::Val(1));
    again.insert(BlockData { data: ValOrAny::Val(0), block_replacement: vec![] });
    all.insert(again);
    assert_eq!(all.blocks.len(), 2);
    assert_eq!(all.get(ValOrAny::Val(1)).unwrap().block_data.len(), 1);
    assert_eq!(all.get(ValOrAny::Any).unwrap().block_data.len(), 0);
    assert_eq!(all.get(ValOrAny::Val(0)), None);
}

#[test]
fn conversion_of_single_replacements() {
    let values = object(vec![
        ("*", object(vec![("3", rule(1, 0))])),
        ("17", object(vec![("*", rule(162, 0)), ("1", rule(162, 1))])),
    ]);
    assert!(is_convertible(&values));
    let r = convert_json_dirty(values);
    assert_eq!(r.blocks.len(), 2);
    let any = r.get(ValOrAny::Any).unwrap();
    assert_eq!(any.id, ValOrAny::Any);
    assert_eq!(
        any.block_data,
        vec![BlockData {
            data: ValOrAny::Val(3),
            block_replacement: vec![plain("1:0", Some(1), Some(0))],
        }]
    );
    let logs = r.get(ValOrAny::Val(17)).unwrap();
    assert_eq!(logs.id, ValOrAny::Val(17));
    assert_eq!(
        logs.get(ValOrAny::Any).unwrap().block_replacement,
        vec![plain("162:0", Some(162), Some(0))]
    );
    assert_eq!(
        logs.get(ValOrAny::Val(1)).unwrap().block_replacement,
        vec![plain("162:1", Some(162), Some(1))]
    );
    assert_eq!(logs.get(ValOrAny::Val(1)).unwrap().data, ValOrAny::Val(1));
}

#[test]
fn conversion_of_named_replacements() {
    let values = object(vec![(
        "54",
        object(vec![(
            "*",
            object(vec![("locked", rule(54, 1)), ("open", rule(54, 2))]),
        )]),
    )]);
    assert!(is_convertible(&values));
    let r = convert_json_dirty(values);
    assert_eq!(
        r.get(ValOrAny::Val(54)).unwrap().get(ValOrAny::Any).unwrap().block_replacement,
        vec![plain("locked", Some(54), Some(1)), plain("open", Some(54), Some(2))]
    );
}

#[test]
fn conversion_goes_by_the_first_member_alone() {
    // The first member is an object, so every member counts as a named
    // replacement, the number too.
    let values = object(vec![(
        "1",
        object(vec![("0", object(vec![("a", rule(2, 0)), ("toID", num(9))]))]),
    )]);
    assert!(is_convertible(&values));
    let r = convert_json_dirty(values);
    assert_eq!(
        r.get(ValOrAny::Val(1)).unwrap().get(ValOrAny::Val(0)).unwrap().block_replacement,
        vec![plain("a", Some(2), Some(0)), plain("toID", None, None)]
    );
}

#[test]
fn conversion_lets_the_later_spelling_win() {
    let values = object(vec![
        ("+1", object(vec![("0", rule(5, 0))])),
        ("01", object(vec![("0", rule(6, 0))])),
        ("1", object(vec![("00", rule(7, 0)), ("0", rule(8, 0)), ("2", rule(9, 0))])),
    ]);
    assert!(is_convertible(&values));
    let r = convert_json_dirty(values);
    assert_eq!(r.blocks.len(), 1);
    let table = r.get(ValOrAny::Val(1)).unwrap();
    assert_eq!(table.block_data.len(), 2);
    assert_eq!(
        table.get(ValOrAny::Val(0)).unwrap().block_replacement,
        vec![plain("8:0", Some(8), Some(0))]
    );
    assert_eq!(
        table.get(ValOrAny::Val(2)).unwrap().block_replacement,
        vec![plain("9:0", Some(9), Some(0))]
    );
}

#[test]
fn conversion_of_nothing() {
    let values = object(vec![]);
    assert!(is_convertible(&values));
    assert_eq!(convert_json_dirty(values), Replacements::new());
    let values = object(vec![("7", object(vec![]))]);
    assert!(is_convertible(&values));
    assert_eq!(
        convert_json_dirty(values),
        Replacements { blocks: vec![BlockId::new(ValOrAny::Val(7))] }
    );
}

#[test]
fn shapes_that_cannot_be_converted() {
    assert!(!is_convertible(&null()));
    assert!(!is_convertible(&num(1)));
    assert!(!is_convertible(&object(vec![("x", object(vec![]))])));
    assert!(!is_convertible(&object(vec![("1", num(1))])));
    assert!(!is_convertible(&object(vec![("1", object(vec![("y", rule(1, 0))]))])));
    assert!(!is_convertible(&object(vec![("1", object(vec![("0", num(1))]))])));
    assert!(!is_convertible(&object(vec![("1", object(vec![("0", object(vec![]))]))])));
    assert!(!is_convertible(&object(vec![
        ("1", object(vec![("0", rule(1, 0))])),
        ("9223372036854775808", object(vec![])),
    ])));
    assert!(is_convertible(&object(vec![("1", object(vec![("0", rule(1, 0))]))])));
}
