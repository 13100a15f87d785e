use bean_import::bean::Bean;
use bean_import::error::Error;
use bean_import::importers::alipay;
use bean_import::importers::csv::{keep_read, pick, Parser};
use bean_import::importers::wechat;
use bean_import::importers::wechat::Wechat;
use bean_import::rules::Rules;
use bean_import::text::take_first_token;
use bean_import::transaction::Transaction;

fn rules(text: &str) -> Rules {
    match Rules::from_str(text) {
        Ok(rules) => rules,
        Err(_) => panic!("rules do not parse"),
    }
}

fn row(fields: Vec<&str>) -> Vec<String> {
    fields.into_iter().map(|field| field.to_owned()).collect()
}

#[test]
fn parse_drops_the_lines_before_the_table_and_its_heading() {
    let parser = Parser::new(2);
    let rows = parser.parse("report\nof the month\nname,sum\n shop , 1.00 \nbank,2\n");
    assert_eq!(rows, vec![row(vec!["shop", "1.00"]), row(vec!["bank", "2"])]);
}

#[test]
fn parse_leaves_out_rows_of_another_width() {
    let parser = Parser::new(0);
    let rows = parser.parse("a,b\n1,2\n3\n4,5\n");
    assert_eq!(rows, vec![row(vec!["1", "2"]), row(vec!["4", "5"])]);
}

#[test]
fn parse_of_a_short_file_has_no_rows() {
    assert!(Parser::new(16).parse("a,b\n1,2\n").is_empty());
    assert!(Parser::new(0).parse("").is_empty());
}

#[test]
fn pick_reads_a_column() {
    let record = row(vec!["2020-03-30 18:46:56", "shop"]);
    assert_eq!(pick(&record, "payee", 1, Wechat::default_transform).ok().unwrap(), "shop");
    assert_eq!(pick(&record, "date", 0, take_first_token).ok().unwrap(), "2020-03-30");
    match pick(&record, "fund", 2, Wechat::default_transform) {
        Err(Error::MissingField { field, index, row }) => {
            assert_eq!(field, "fund");
            assert_eq!(index, 2);
            assert_eq!(row, record);
        }
        _ => panic!("a column was read"),
    }
    let blank = row(vec!["  "]);
    assert!(matches!(
        pick(&blank, "date", 0, take_first_token),
        Err(Error::MissingField { index: 0, .. })
    ));
}

fn wechat_export() -> String {
    let mut text = String::new();
    for line in 0..16 {
        text.push_str(&format!("heading {}\n", line));
    }
    text.push_str("交易时间,交易类型,交易对方,商品,收/支,金额(元),支付方式,当前状态,交易单号,商户单号,备注\n");
    text.push_str("2020-03-30 18:46:56,商户消费,星巴克,咖啡,支出,¥30.00,零钱,支付成功,1,2,/\n");
    text.push_str("2020-03-31 08:00:00,零钱提现,银行,/,/,¥100.00,零钱,提现已到账,3,4,服务费¥0.37\n");
    text
}

#[test]
fn wechat_export_becomes_a_ledger() {
    let rules = rules("[payee]\n\"星巴克\" = \"Expenses:Coffee\"\n[fund]\n\"零钱\" = \"Assets:Wechat:Change\"\n");
    let ledger = match wechat::import(&wechat_export(), rules) {
        Ok(text) => text,
        Err(_) => panic!("no ledger"),
    };
    assert_eq!(
        ledger,
        "2020-03-30 * \"星巴克\" \"咖啡\"\n  Expenses:Coffee 30 CNY\n  Assets:Wechat:Change\n\
2020-03-31 ! \"银行\" \"零钱提现 服务费¥0.37\"\n  unknown_flow: \"提现已到账\"\n  100 CNY\n  Assets:Wechat:Change\n"
    );
}

#[test]
fn wechat_load_keeps_the_rows_in_order() {
    let bean = wechat::load(&wechat_export());
    assert_eq!(bean.list().len(), 2);
    assert_eq!(bean.list()[0].payee().ok().unwrap(), "星巴克");
    assert_eq!(bean.list()[1].payee().ok().unwrap(), "银行");
}

#[test]
fn load_adds_after_what_is_there() {
    let mut bean: Bean<Wechat> = Bean::new("Assets:Test");
    bean.add(Wechat::new(row(vec!["2020-01-01"])));
    let bean = Parser::new(16).load(&wechat_export(), bean, Wechat::new);
    assert_eq!(bean.list().len(), 3);
    assert_eq!(bean.list()[0].date().ok().unwrap(), "2020-01-01");
    assert_eq!(bean.list()[2].date().ok().unwrap(), "2020-03-31");
}

#[test]
fn alipay_export_becomes_a_ledger() {
    let text = "支付宝交易记录明细查询\n账号\n起始日期\n---\n\
交易号,商家订单号,交易创建时间,付款时间,最近修改时间,交易来源地,类型,交易对方,商品名称,金额（元）,收/支,交易状态,服务费（元）,成功退款（元）,备注,资金状态\n\
1,2,2020-04-08 14:56:53,2020-04-08 14:57:00,2020-04-23 14:57:12,其他,即时到账交易,companyname,lunch,100.00,支出,交易成功,0.00,0.00,,已支出\n\
3,4,2020-04-09 10:00:00,2020-04-09 10:00:05,2020-04-09 10:00:05,其他,即时到账交易,friend,refund,20.50,收入,交易成功,0.00,0.00,,已收入\n";
    let ledger = match alipay::import(text, rules("[payee]\ncompanyname = \"Expenses:Food\"\nfriend = \"Income:Friends\"\n")) {
        Ok(text) => text,
        Err(_) => panic!("no ledger"),
    };
    assert_eq!(
        ledger,
        "2020-04-08 * \"companyname\" \"lunch\"\n  Expenses:Food 100 CNY\n  Assets:Alipay\n\
2020-04-09 * \"friend\" \"refund\"\n  Income:Friends -20.5 CNY\n  Assets:Alipay\n"
    );
    assert_eq!(alipay::load(text).list().len(), 2);
}

#[test]
fn a_row_that_lacks_a_column_fails_the_import() {
    let text = "1\n2\n3\n4\na,b,c,d\n1,2,3,2020-01-01 10:00:00\n";
    assert!(matches!(
        alipay::import(text, rules("")),
        Err(Error::MissingField { index: 7, .. })
    ));
}

#[test]
fn output_renders_the_bean_with_the_rows() {
    let bean: Bean<Wechat> = Bean::new("Assets:Other");
    let ledger = match Parser::new(16).output(&wechat_export(), bean, Wechat::new, rules("")) {
        Ok(text) => text,
        Err(_) => panic!("no ledger"),
    };
    assert!(ledger.starts_with("2020-03-30 ! \"星巴克\" \"咖啡\"\n  30 CNY\n  Assets:Other\n"));
}

#[test]
fn refused_records_are_dropped_and_the_rest_keep_their_order() {
    let records = vec![
        Some(row(vec!["1", "2"])),
        None,
        Some(row(vec![])),
        None,
        Some(row(vec!["4", "5"])),
    ];
    assert_eq!(
        keep_read(records),
        vec![row(vec!["1", "2"]), row(vec![]), row(vec!["4", "5"])]
    );
    assert!(keep_read(vec![None, None]).is_empty());
    assert!(keep_read(vec![]).is_empty());
}

#[test]
fn parse_leaves_out_every_row_of_another_width_than_the_heading() {
    let parser = Parser::new(1);
    let rows = parser.parse("skipped\na,b,c\n1,2\n3,4,5\n6\n7,8,9\n10,11,12,13\n");
    assert_eq!(rows, vec![row(vec!["3", "4", "5"]), row(vec!["7", "8", "9"])]);
}
