use bean_import::bean::Bean;
use bean_import::record::Record;
use bean_import::rules::Rules;

fn rules(text: &str) -> Rules {
    match Rules::from_str(text) {
        Ok(rules) => rules,
        Err(_) => panic!("rules do not parse"),
    }
}

fn output(bean: &Bean<Record>, rules: Rules) -> String {
    match bean.output_with_rules(rules) {
        Ok(text) => text,
        Err(_) => panic!("no output"),
    }
}

#[test]
fn test_output() {
    let mut bean = Bean::new("Assets:Test");
    let mut transaction = Record::default();
    transaction.date = "2020-04-01".to_owned();
    transaction.payee = "SomeShop".to_owned();
    transaction.narration = "some notes".to_owned();
    bean.add(transaction);
    let rules = rules(
        r#"
[payee]
"SomeShop" = "Expenses:Custom"
"#,
    );
    assert_eq!(
        output(&bean, rules),
        r#"2020-04-01 ! "SomeShop" "some notes"
  Expenses:Custom 0 CNY
  Assets:Test
"#
    );
}

#[test]
fn test_output_with_fund() {
    let mut bean = Bean::new("Assets:Test");
    let mut transaction = Record::default();
    transaction.fund = "custom".to_owned();
    bean.add(transaction);
    let rules = rules(
        r#"
[fund]
"custom" = "Assets:Custom"
"#,
    );
    assert_eq!(
        output(&bean, rules),
        r#" ! "" ""
  0 CNY
  Assets:Custom
"#
    );
}

#[test]
fn test_alias() {
    let mut bean = Bean::new("Assets:Test");
    let mut transaction = Record::default();
    transaction.payee = "test".to_owned();
    bean.add(transaction);
    let rules = rules(
        r#"
[payee]
"test" = { alias = "aliased", account = "Expenses:Aliased" }
"#,
    );
    assert_eq!(
        output(&bean, rules),
        r#" ! "aliased" ""
  Expenses:Aliased 0 CNY
  Assets:Test
"#
    );
}

fn record(date: &str, payee: &str, narration: &str) -> Record {
    Record {
        date: date.to_owned(),
        payee: payee.to_owned(),
        narration: narration.to_owned(),
        ..Record::default()
    }
}

#[test]
fn unknown_flow_without_rules_is_flagged() {
    let mut bean = Bean::new("Assets:Test");
    bean.add(record("2020-04-01", "SomeShop", "some notes"));
    assert_eq!(
        output(&bean, rules("")),
        "2020-04-01 ! \"SomeShop\" \"some notes\"\n  0 CNY\n  Assets:Test\n"
    );
}

#[test]
fn known_payee_and_flow_are_confirmed() {
    let mut bean = Bean::new("Assets:Test");
    let mut transaction = record("2020-04-01", "SomeShop", "some notes");
    transaction.flow = bean_import::flow::Flow::Expense;
    bean.add(transaction);
    let rules = rules("[payee]\nSomeShop = \"Expenses:Custom\"\n");
    assert_eq!(
        output(&bean, rules),
        "2020-04-01 * \"SomeShop\" \"some notes\"\n  Expenses:Custom 0 CNY\n  Assets:Test\n"
    );
}

#[test]
fn known_flow_without_account_is_flagged() {
    let mut bean = Bean::new("Assets:Test");
    let mut transaction = record("2020-04-01", "SomeShop", "");
    transaction.flow = bean_import::flow::Flow::Income;
    transaction.amount = bean_import::amount::Amount::parse("12.50").unwrap().negate();
    bean.add(transaction);
    let rules = rules("[payee]\nSomeShop = \"\"\n");
    assert_eq!(
        output(&bean, rules),
        "2020-04-01 ! \"SomeShop\" \"\"\n  -12.5 CNY\n  Assets:Test\n"
    );
}

#[test]
fn fund_without_account_falls_back() {
    let mut bean = Bean::new("Assets:Test");
    let mut transaction = Record::default();
    transaction.fund = "custom".to_owned();
    bean.add(transaction);
    assert_eq!(output(&bean, rules("[fund]\ncustom = \"\"\n")), " ! \"\" \"\"\n  0 CNY\n  Assets:Test\n");
    let mut bean = Bean::new("Assets:Test");
    let mut transaction = Record::default();
    transaction.fund = "other".to_owned();
    bean.add(transaction);
    assert_eq!(
        output(&bean, rules("[fund]\ncustom = \"Assets:Custom\"\n")),
        " ! \"\" \"\"\n  0 CNY\n  Assets:Test\n"
    );
}

#[test]
fn metadata_lines_are_indented_and_in_order() {
    let mut bean = Bean::new("Assets:Test");
    let mut transaction = record("2020-04-01", "a", "b");
    transaction.metadata = vec![
        ("unknown_flow".to_owned(), "提现已到账".to_owned()),
        ("note".to_owned(), "x".to_owned()),
    ];
    bean.add(transaction);
    assert_eq!(
        output(&bean, rules("")),
        "2020-04-01 ! \"a\" \"b\"\n  unknown_flow: \"提现已到账\"\n  note: \"x\"\n  0 CNY\n  Assets:Test\n"
    );
}

#[test]
fn records_come_in_the_order_of_addition() {
    let mut bean = Bean::new("Assets:Test");
    bean.add(record("2020-04-02", "second", ""));
    bean.add(record("2020-04-01", "first", ""));
    assert_eq!(bean.list().len(), 2);
    assert_eq!(
        output(&bean, rules("")),
        "2020-04-02 ! \"second\" \"\"\n  0 CNY\n  Assets:Test\n2020-04-01 ! \"first\" \"\"\n  0 CNY\n  Assets:Test\n"
    );
}

#[test]
fn empty_ledger_has_no_text() {
    let bean: Bean<Record> = Bean::new("Assets:Test");
    assert_eq!(output(&bean, rules("")), "");
}
