use bean_import::importers::alipay::Alipay;
use bean_import::transaction::Transaction;
use csv::{ReaderBuilder, StringRecord, Trim};

fn gen_record(s: &str) -> Vec<String> {
    let mut record = StringRecord::new();
    ReaderBuilder::new()
        .trim(Trim::All)
        .has_headers(false)
        .from_reader(s.as_bytes())
        .read_record(&mut record)
        .unwrap();
    record.iter().map(|field| field.to_owned()).collect()
}

#[derive(Default)]
struct Trans<'a> {
    create_date: &'a str,
    pay_date: &'a str,
    modify_date: &'a str,
    trade_type: &'a str,
    trade_source: &'a str,
    payee: &'a str,
    commodity: &'a str,
    flow: &'a str,
    amount: &'a str,
    fee: &'a str,
    refund: &'a str,
    fund_status: &'a str,
    status: &'a str,
    trade_id: &'a str,
    store_id: &'a str,
    remark: &'a str,
}

impl<'a> Trans<'a> {
    fn as_string(&self) -> String {
        vec![
            self.trade_id,
            self.store_id,
            self.create_date,
            self.pay_date,
            self.modify_date,
            self.trade_source,
            self.trade_type,
            self.payee,
            self.commodity,
            self.amount,
            self.flow,
            self.status,
            self.fee,
            self.refund,
            self.remark,
            self.fund_status,
        ]
        .join(",")
    }
}

#[test]
fn alipay_get_date() {
    let t = Trans {
        pay_date: "2020-03-30 18:46:56",
        ..Trans::default()
    };
    let r = gen_record(&t.as_string());
    let transaction = Alipay::new(r);
    assert_eq!(transaction.date().ok().unwrap(), "2020-03-30")
}

#[test]
fn it_mark_closed_transanction_invalid() {
    let r = gen_record("xxx	,Cxxx	,2020-04-08 14:56:53 ,                    ,2020-04-23 14:57:12 ,其他（包括阿里巴巴和外部商家）,即时到账交易          ,companyname    ,订单号：Cxxx,100.00,        ,交易关闭    ,0.00     ,0.00     ,                    ,         ,");
    let transaction = Alipay::new(r);
    assert!(!transaction.is_valid());
}

#[test]
fn alipay_reads_its_columns() {
    let t = Trans {
        pay_date: "2020-03-30 18:46:56",
        payee: "companyname",
        commodity: "lunch",
        amount: "100.00",
        flow: "支出",
        status: "交易成功",
        ..Trans::default()
    };
    let transaction = Alipay::new(gen_record(&t.as_string()));
    assert!(transaction.is_valid());
    assert_eq!(transaction.payee().ok().unwrap(), "companyname");
    assert_eq!(transaction.narration().ok().unwrap(), "lunch");
    assert_eq!(transaction.fund().ok().unwrap(), "");
    assert!(transaction.metadata().ok().unwrap().is_empty());
    assert_eq!(transaction.amount().ok().unwrap().render(), "100");
    assert!(matches!(transaction.flow(), Ok(bean_import::flow::Flow::Expense)));
}

#[test]
fn alipay_income_is_negated() {
    let t = Trans {
        amount: "100.00",
        flow: "收入",
        ..Trans::default()
    };
    let transaction = Alipay::new(gen_record(&t.as_string()));
    assert_eq!(transaction.amount().ok().unwrap().render(), "-100");
}

#[test]
fn alipay_unknown_flow_keeps_its_sign_and_its_text() {
    let t = Trans {
        amount: "3.05",
        flow: "",
        ..Trans::default()
    };
    let transaction = Alipay::new(gen_record(&t.as_string()));
    assert_eq!(transaction.amount().ok().unwrap().render(), "3.05");
    assert!(matches!(transaction.flow(), Ok(bean_import::flow::Flow::Unknown(text)) if text.is_empty()));
}

#[test]
fn alipay_row_without_status_is_not_valid() {
    let transaction = Alipay::new(vec!["a".to_owned(), "b".to_owned()]);
    assert!(!transaction.is_valid());
}

#[test]
fn alipay_missing_column_is_named() {
    let row = vec!["a".to_owned(), "b".to_owned(), "c".to_owned(), "2020-01-02".to_owned()];
    let transaction = Alipay::new(row.clone());
    assert_eq!(transaction.date().ok().unwrap(), "2020-01-02");
    match transaction.payee() {
        Err(bean_import::error::Error::MissingField { field, index, row: seen }) => {
            assert_eq!(field, "payee");
            assert_eq!(index, 7);
            assert_eq!(seen, row);
        }
        _ => panic!("a payee was read"),
    }
}

#[test]
fn alipay_date_in_the_creation_column_is_not_read() {
    let t = Trans {
        create_date: "2020-03-30 18:46:56",
        ..Trans::default()
    };
    let transaction = Alipay::new(gen_record(&t.as_string()));
    assert!(transaction.date().is_err());
}
