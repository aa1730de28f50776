use screen_server::content::KittyDebt;
use screen_server::kitty_updater::{extract_debt, extract_debts, parse_amount, DebtError, RecordError};

fn amount_value(debt: &KittyDebt) -> f32 {
    debt.how_much.units as f32 / 10f32.powi(debt.how_much.scale as i32)
}

#[test]
fn finds_one_debt() {
        let body = r#"
<body>
<ul class="transactions horizontal-divider">
    <li class="transaction ks-data-row">
        <div class="transaction-icon kitty-icon-column">
            <i class="fa-icon fas fa-money-bill-alt text-success " aria-hidden="true"></i>
        </div>
        <div class="transaction-text">
            Sid gives <span class="currency"><span class="currency-symbol">CHF</span>72.50</span> to Moses
        </div>
        <div class="transaction-action">
        </div>
    </li>
</ul>
</body>
"#;
        let debts = extract_debts(body).unwrap();
        assert_eq!(debts.len(), 1);
        assert_eq!(debts[0].who, "Sid");
        assert_eq!(amount_value(&debts[0]), 72.5);
        assert_eq!(debts[0].whom, "Moses");
    }

#[test]
fn finds_two_debts() {
        let body = r#"
<body>
<ul class="transactions horizontal-divider">
    <li class="transaction ks-data-row">
        <div class="transaction-icon kitty-icon-column">
            <i class="fa-icon fas fa-money-bill-alt text-success " aria-hidden="true"></i>
        </div>
        <div class="transaction-text">
            Sid gives <span class="currency"><span class="currency-symbol">CHF</span>72.50</span> to Moses
        </div>
        <div class="transaction-action">
        </div>
    </li>
    <li class="transaction ks-data-row">
        <div class="transaction-icon kitty-icon-column">
            <i class="fa-icon fas fa-certificate text-muted " aria-hidden="true"></i>
        </div>
        <div class="transaction-text">
            Bini gives <span class="currency"><span class="currency-symbol">CHF</span>137.94</span> to Moses
        </div>
        <div class="transaction-action">
        </div>
    </li>
</ul>
</body>
"#;
        let debts = extract_debts(body).unwrap();
        assert_eq!(debts.len(), 2);
        assert_eq!(debts[0].who, "Sid");
        assert_eq!(amount_value(&debts[0]), 72.5);
        assert_eq!(debts[0].whom, "Moses");
        assert_eq!(debts[1].who, "Bini");
        assert_eq!(amount_value(&debts[1]), 137.94);
        assert_eq!(debts[1].whom, "Moses");
}

#[test]
fn doesnt_panic_on_garbled_input() {
        let body = "\\<";
        assert!(extract_debts(body).is_err());
    }

#[test]
fn doesnt_panic_on_empty_page() {
        let body = "";
        assert!(extract_debts(body).is_err());
    }

#[test]
fn doesnt_panic_on_no_debts() {
        let body = r#"
<body>
<ul class="transactions horizontal-divider">
    <li class="transaction ks-data-row">
        <div class="transaction-icon kitty-icon-column">
            <i class="fa-icon fas fa-money-bill-alt text-success " aria-hidden="true"></i>
        </div>
        <div class="transaction-action">
        </div>
    </li>
    <li class="transaction ks-data-row">
        <div class="transaction-icon kitty-icon-column">
            <i class="fa-icon fas fa-certificate text-muted " aria-hidden="true"></i>
        </div>
        <div class="transaction-action">
        </div>
    </li>
</ul>
</body>
"#
        ;
        assert!(extract_debts(body).is_err());
    }

#[test]
fn empty_page_reports_its_size() {
    match extract_debts("") {
        Err(DebtError::NoDebts { body_len, .. }) => assert_eq!(body_len, 0),
        other => panic!("unexpected {:?}", other),
    }
}

#[test]
fn record_without_payee_is_skipped() {
    let body = r#"<div class="transaction-text">Sid gives <span>3.5</span> to Moses</div>
<div class="transaction-text">Ann gives <span>4</span></div>"#;
    let debts = extract_debts(body).unwrap();
    assert_eq!(debts.len(), 1);
    assert_eq!(debts[0].who, "Sid");
    assert_eq!(debts[0].whom, "Moses");
}

#[test]
fn record_errors_are_told_apart() {
    let texts = |v: &[&str]| v.iter().map(|s| s.to_string()).collect::<Vec<String>>();
    assert_eq!(extract_debt(&texts(&["nobody", "3", " to B"])).err(), Some(RecordError::NoPayer));
    assert_eq!(extract_debt(&texts(&["A gives ", "CHF", " to B"])).err(), Some(RecordError::NoAmount));
    assert_eq!(extract_debt(&texts(&["A gives ", "3"])).err(), Some(RecordError::NoPayee));
    assert_eq!(extract_debt(&texts(&[" gives ", "3", " to B"])).err(), Some(RecordError::EmptyName));
}

#[test]
fn names_lose_every_marker_and_the_surrounding_space() {
    let texts = vec!["\n  Al gives Bo gives ".to_string(), " 12.5 ".to_string(), " to Cy\n".to_string()];
    let debt = extract_debt(&texts).unwrap();
    assert_eq!(debt.who, "AlBo");
    assert_eq!(debt.whom, "Cy");
    assert_eq!(debt.how_much.units, 125);
    assert_eq!(debt.how_much.scale, 1);
}

#[test]
fn amounts_follow_the_decimal_grammar() {
    let a = parse_amount("72.50").unwrap();
    assert_eq!((a.units, a.scale), (7250, 2));
    let a = parse_amount("+5.").unwrap();
    assert_eq!((a.units, a.scale), (5, 0));
    let a = parse_amount(".25").unwrap();
    assert_eq!((a.units, a.scale), (25, 2));
    assert!(parse_amount("").is_none());
    assert!(parse_amount(".").is_none());
    assert!(parse_amount("-3").is_none());
    assert!(parse_amount("1.2.3").is_none());
    assert!(parse_amount("CHF").is_none());
    assert!(parse_amount("99999999999999999999").is_none());
}

#[test]
fn page_without_debts_reports_parser_complaints() {
    let body = r#"<div class="transaction-text">nothing to see</div>"#;
    match extract_debts(body) {
        Err(DebtError::NoDebts { body_len, parse_errors }) => {
            assert_eq!(body_len, body.len());
            assert!(!parse_errors.is_empty());
        }
        other => panic!("unexpected {:?}", other),
    }
}

#[test]
fn amounts_take_an_exponent() {
    let value = |s: &str| parse_amount(s).map(|a| (a.units, a.scale));
    assert_eq!(value("1e3"), Some((1000, 0)));
    assert_eq!(value("2.5E-1"), Some((25, 2)));
    assert_eq!(value("1.5e1"), Some((15, 0)));
    assert_eq!(value("+1e+2"), Some((100, 0)));
    assert_eq!(value("0e99999999999999999999999999"), Some((0, 0)));
    assert_eq!(value("1e99999999999999999999999999"), None);
    assert_eq!(value("1e"), None);
    assert_eq!(value("e5"), None);
    assert_eq!(value("1e2.5"), None);
}
