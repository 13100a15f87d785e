use bean_import::error::Error;
use bean_import::flow::Flow;
use bean_import::importers::wechat::Wechat;
use bean_import::transaction::Transaction;
use csv::{ReaderBuilder, StringRecord, Trim};

fn gen_record(s: &str) -> Vec<String> {
    let mut record = StringRecord::new();
    ReaderBuilder::new()
        .trim(Trim::All)
        .has_headers(false)
        .from_reader(s.as_bytes())
        .read_record(&mut record)
        .unwrap();
    record.iter().map(|field| field.to_owned()).collect()
}

#[derive(Default)]
struct Trans<'a> {
    date: &'a str,
    trade_type: &'a str,
    payee: &'a str,
    commodity: &'a str,
    flow: &'a str,
    amount: &'a str,
    fund: &'a str,
    status: &'a str,
    trade_id: &'a str,
    store_id: &'a str,
    remark: &'a str,
}

impl<'a> Trans<'a> {
    fn as_string(&self) -> String {
        vec![
            self.date,
            self.trade_type,
            self.payee,
            self.commodity,
            self.flow,
            self.amount,
            self.fund,
            self.status,
            self.trade_id,
            self.store_id,
            self.remark,
        ]
        .join(",")
    }
}

fn gen_with_draw<'a>() -> Trans<'a> {
    Trans {
        trade_type: "零钱提现",
        status: "提现已到账",
        remark: "服务费¥0.37",
        ..Trans::default()
    }
}

fn pairs(list: Vec<(&str, &str)>) -> Vec<(String, String)> {
    list.into_iter().map(|(k, v)| (k.to_owned(), v.to_owned())).collect()
}

#[test]
fn wechat_get_date() {
    let t = Trans {
        date: "2020-03-30 18:46:56",
        ..Trans::default()
    };
    let r = gen_record(&t.as_string());
    let wechat = Wechat::new(r);
    assert_eq!(wechat.date().ok().unwrap(), "2020-03-30")
}

#[test]
fn get_fund() {
    let t = Trans {
        fund: "CCB",
        ..Trans::default()
    };
    let r = gen_record(&t.as_string());
    let wechat = Wechat::new(r);
    assert_eq!(wechat.fund().ok().unwrap(), "CCB")
}

#[test]
fn add_unknown_flow_to_metadata() {
    let t = Trans {
        flow: "unknownflow",
        ..Trans::default()
    };
    let r = gen_record(&t.as_string());
    let wechat = Wechat::new(r);
    assert_eq!(wechat.metadata().ok().unwrap(), pairs(vec![("unknown_flow", t.flow)]))
}

#[test]
fn mark_unknown_for_refund() {
    let t = Trans {
        flow: "收入",
        status: "已全额退款",
        ..Trans::default()
    };
    let r = gen_record(&t.as_string());
    let wechat = Wechat::new(r);
    assert_eq!(wechat.metadata().ok().unwrap(), pairs(vec![("unknown_flow", t.status)]))
}

#[test]
fn mark_unknown_for_with_draw() {
    let t = gen_with_draw();
    let r = gen_record(&t.as_string());
    let wechat = Wechat::new(r);
    assert_eq!(wechat.metadata().ok().unwrap(), pairs(vec![("unknown_flow", t.status)]))
}

#[test]
fn get_narration_with_draw() {
    let t = gen_with_draw();
    let r = gen_record(&t.as_string());
    let wechat = Wechat::new(r);
    assert_eq!(
        wechat.narration().ok().unwrap(),
        format!("{} {}", t.trade_type, t.remark)
    )
}

#[test]
fn withdrawal_narration_and_metadata_in_full() {
    let r = gen_record(&gen_with_draw().as_string());
    let wechat = Wechat::new(r);
    assert_eq!(wechat.narration().ok().unwrap(), "零钱提现 服务费¥0.37");
    assert_eq!(
        wechat.metadata().ok().unwrap(),
        pairs(vec![("unknown_flow", "提现已到账")])
    );
    assert!(matches!(wechat.flow(), Ok(Flow::Unknown(reason)) if reason == "提现已到账"));
}

#[test]
fn plain_narration_comes_from_its_column() {
    let t = Trans {
        commodity: "coffee",
        trade_type: "shop",
        status: "支付成功",
        remark: "/",
        ..Trans::default()
    };
    let wechat = Wechat::new(gen_record(&t.as_string()));
    assert_eq!(wechat.narration().ok().unwrap(), "coffee");
    assert_eq!(wechat.status().ok().unwrap(), "支付成功");
    assert_eq!(wechat.trade_type().ok().unwrap(), "shop");
    assert_eq!(wechat.remark().ok().unwrap(), "/");
}

#[test]
fn wechat_income_is_negated() {
    let t = Trans {
        flow: "收入",
        amount: "¥12.50",
        status: "已存入零钱",
        ..Trans::default()
    };
    let wechat = Wechat::new(gen_record(&t.as_string()));
    assert_eq!(wechat.amount().ok().unwrap().render(), "-12.5");
    assert!(matches!(wechat.flow(), Ok(Flow::Income)));
    assert_eq!(wechat.metadata().ok().unwrap(), pairs(vec![]));
}

#[test]
fn wechat_expense_keeps_its_sign() {
    let t = Trans {
        flow: "支出",
        amount: "¥0.37",
        status: "支付成功",
        ..Trans::default()
    };
    let wechat = Wechat::new(gen_record(&t.as_string()));
    assert_eq!(wechat.amount().ok().unwrap().render(), "0.37");
    assert!(matches!(wechat.flow(), Ok(Flow::Expense)));
}

#[test]
fn wechat_refund_keeps_its_sign() {
    let t = Trans {
        flow: "收入",
        amount: "¥8",
        status: "已全额退款",
        ..Trans::default()
    };
    let wechat = Wechat::new(gen_record(&t.as_string()));
    assert_eq!(wechat.amount().ok().unwrap().render(), "8");
}

#[test]
fn wechat_amount_that_is_no_number_is_a_missing_field() {
    let t = Trans {
        flow: "支出",
        amount: "¥abc",
        ..Trans::default()
    };
    let row = gen_record(&t.as_string());
    let wechat = Wechat::new(row.clone());
    match wechat.amount() {
        Err(Error::MissingField { field, index, row: seen }) => {
            assert_eq!(field, "amount");
            assert_eq!(index, 5);
            assert_eq!(seen, row);
        }
        _ => panic!("an amount was read"),
    }
}

#[test]
fn wechat_short_row_names_the_first_column_asked_for() {
    let wechat = Wechat::new(vec!["2020-01-01 10:00:00".to_owned(), "shop".to_owned()]);
    assert_eq!(wechat.date().ok().unwrap(), "2020-01-01");
    match wechat.payee() {
        Err(Error::MissingField { field, index, row }) => {
            assert_eq!(field, "payee");
            assert_eq!(index, 2);
            assert_eq!(row.len(), 2);
        }
        _ => panic!("a payee was read"),
    }
    assert!(matches!(wechat.flow(), Err(Error::MissingField { index: 4, .. })));
    assert!(matches!(wechat.narration(), Err(Error::MissingField { index: 7, .. })));
    assert!(matches!(wechat.amount(), Err(Error::MissingField { index: 5, .. })));
    assert!(matches!(wechat.metadata(), Err(Error::MissingField { index: 4, .. })));
}

#[test]
fn wechat_blank_date_is_a_missing_field() {
    let t = Trans::default();
    let wechat = Wechat::new(gen_record(&t.as_string()));
    assert!(matches!(wechat.date(), Err(Error::MissingField { index: 0, .. })));
}
