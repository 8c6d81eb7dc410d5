use base64::{engine::general_purpose, Engine as _};
use gl_runes::context::Context;
use gl_runes::error::Error;
use gl_runes::policy::{DefRules, RuneFactory};
use gl_runes::restriction::{Alternative, Restriction};
use runeauth::{Condition, Rune};
use std::time::{SystemTime, UNIX_EPOCH};

fn now() -> i64 {
    SystemTime::now().duration_since(UNIX_EPOCH).unwrap().as_secs() as i64
}

fn ctx(method: &str, pubkey: &str) -> Context {
    Context {
        method: String::from(method),
        pubkey: String::from(pubkey),
        unique_id: String::new(),
        time: now(),
    }
}

fn single(field: &str, cond: Condition, value: &str) -> Vec<Restriction> {
    let alt = Alternative::new(String::from(field), cond, String::from(value)).unwrap();
    vec![Restriction::new(vec![alt]).unwrap()]
}

fn master() -> Rune {
    let seed = [0; 32];
    Rune::new_master_rune(&seed, vec![], None, None).unwrap()
}

fn restriction_part(carved: &str) -> String {
    let carved_byt = general_purpose::URL_SAFE.decode(carved).unwrap();
    String::from_utf8(carved_byt[32..].to_vec()).unwrap()
}

#[test]
fn test_carve_readonly_rune() {
    let mr = master();

    // Carve a new rune from the master rune with given restrictions.
    let carved = RuneFactory::carve(&mr, &[DefRules::ReadOnly]).unwrap();

    // Strip off the authcode to inspect the restrictions.
    assert_eq!(restriction_part(&carved), *"method^Get|method^List");

    let carved_rune = Rune::from_base64(&carved).unwrap();
    assert!(mr.is_authorized(&carved_rune));
}

#[test]
fn test_carve_disjunction_rune() {
    let mr = master();

    let carved =
        RuneFactory::carve(&mr, &[DefRules::Add(vec![DefRules::ReadOnly, DefRules::Pay])]).unwrap();

    assert_eq!(restriction_part(&carved), *"method^Get|method^List|method=pay");

    let carved_rune = Rune::from_base64(&carved).unwrap();
    assert!(mr.is_authorized(&carved_rune));
}

#[test]
fn test_defrules_display() {
    let r = DefRules::Pay;
    assert_eq!(r.to_string(), "pay");
    let r = DefRules::Add(vec![DefRules::Pay]);
    assert_eq!(r.to_string(), "pay");
    let r = DefRules::Add(vec![DefRules::Pay, DefRules::ReadOnly]);
    assert_eq!(r.to_string(), "pay|readonly");
}

#[test]
fn test_context_check() {
    // r1 restrictions: "pubkey=020000000000000000"
    let r1 = single("pubkey", Condition::Equal, "020000000000000000");
    // r2 restrictions: "method=GetInfo"
    let r2 = single("method", Condition::Equal, "GetInfo");
    // r3 restrictions: "pubkey!"
    let r3 = single("pubkey", Condition::Missing, "");
    // r4 restriction: "method!"
    let r4 = single("method", Condition::Missing, "");

    // These should succeed.
    assert!(ctx("", "020000000000000000").are_restrictions_met(&r1).is_ok());
    assert!(ctx("ListFunds", "020000000000000000").are_restrictions_met(&r1).is_ok());
    assert!(ctx("GetInfo", "").are_restrictions_met(&r2).is_ok());
    assert!(ctx("GetInfo", "020000000000000000").are_restrictions_met(&r2).is_ok());
    assert!(ctx("GetInfo", "").are_restrictions_met(&r3).is_ok());
    assert!(ctx("", "020000000000000000").are_restrictions_met(&r4).is_ok());

    // These should fail.
    // Wrong pubkey.
    assert!(ctx("ListFunds", "030000").are_restrictions_met(&r1).is_err());
    // Wrong method.
    assert!(ctx("ListFunds", "030000").are_restrictions_met(&r2).is_err());
    // Pubkey present.
    assert!(ctx("", "030000").are_restrictions_met(&r3).is_err());
    // Method present.
    assert!(ctx("GetInfo", "").are_restrictions_met(&r4).is_err());
}

#[test]
fn base64_round_trip_keeps_encoding() {
    let mr = master();
    let carved = RuneFactory::carve(&mr, &[DefRules::ReadOnly, DefRules::Pay]).unwrap();
    let back = Rune::from_base64(&carved).unwrap();
    assert_eq!(back.to_base64(), carved);
    assert_eq!(restriction_part(&carved), "method^Get|method^List&method=pay");
    assert!(mr.is_authorized(&back));
}

#[test]
fn unrestricted_rune_authorizes_any_context() {
    assert!(ctx("pay", "03ff").are_restrictions_met(&vec![]).is_ok());
    assert!(ctx("", "").are_restrictions_met(&vec![]).is_ok());
}

#[test]
fn carving_narrows_authority() {
    let mut restrictions = single("pubkey", Condition::Equal, "02aa");
    restrictions.append(&mut DefRules::ReadOnly.generate().unwrap());
    let c = ctx("pay", "02aa");
    assert!(c.are_restrictions_met(&restrictions[..1].to_vec()).is_ok());
    assert_eq!(c.are_restrictions_met(&restrictions), Err(Error::Unmet(1)));
    let c = ctx("GetInfo", "02bb");
    assert_eq!(c.are_restrictions_met(&restrictions), Err(Error::Unmet(0)));
}

#[test]
fn readonly_policy_admits_reads_only() {
    let r = DefRules::ReadOnly.generate().unwrap();
    assert_eq!(r.len(), 1);
    assert!(ctx("ListFunds", "").meets(&r[0]));
    assert!(ctx("GetInfo", "").meets(&r[0]));
    assert!(!ctx("pay", "").meets(&r[0]));
}

#[test]
fn pay_policy_admits_pay_only() {
    let r = DefRules::Pay.generate().unwrap();
    assert!(ctx("pay", "").meets(&r[0]));
    assert!(!ctx("Pay", "").meets(&r[0]));
    assert!(!ctx("payx", "").meets(&r[0]));
    assert!(!ctx("GetInfo", "").meets(&r[0]));
}

#[test]
fn add_merges_alternatives_into_one_restriction() {
    let r = DefRules::Add(vec![DefRules::ReadOnly, DefRules::Pay]).generate().unwrap();
    assert_eq!(r.len(), 1);
    assert_eq!(r[0].alternatives.len(), 3);
    assert_eq!(r[0].encode().iter().collect::<String>(), "method^Get|method^List|method=pay");
    assert!(ctx("pay", "").meets(&r[0]));
    assert!(ctx("ListPeers", "").meets(&r[0]));
    assert!(!ctx("Stop", "").meets(&r[0]));
}

#[test]
fn nested_add_label_keeps_order() {
    let r = DefRules::Add(vec![DefRules::ReadOnly, DefRules::Add(vec![DefRules::Pay, DefRules::ReadOnly])]);
    assert_eq!(r.to_string(), "readonly|pay|readonly");
    assert_eq!(DefRules::ReadOnly.to_string(), "readonly");
    assert_eq!(DefRules::Add(vec![]).to_string(), "");
}

#[test]
fn empty_add_fails_to_generate() {
    assert_eq!(DefRules::Add(vec![]).generate().unwrap_err(), Error::EmptyRestriction);
    let mr = master();
    let r = RuneFactory::carve(&mr, &[DefRules::Pay, DefRules::Add(vec![])]);
    assert_eq!(r, Err(Error::EmptyRestriction));
}

#[test]
fn carve_leaves_origin_unchanged() {
    let mr = master();
    let before = mr.to_base64();
    let carved = RuneFactory::carve(&mr, &[DefRules::Pay]).unwrap();
    assert_eq!(mr.to_base64(), before);
    assert_ne!(carved, before);
    assert_eq!(restriction_part(&carved), "method=pay");
    assert_eq!(restriction_part(&RuneFactory::carve(&mr, &[]).unwrap()), "");
}

#[test]
fn construction_errors() {
    assert_eq!(Restriction::new(vec![]).unwrap_err(), Error::EmptyRestriction);
    assert_eq!(
        Alternative::new(String::from("a=b"), Condition::Equal, String::from("x")).unwrap_err(),
        Error::InvalidField
    );
    assert_eq!(
        Alternative::new(String::new(), Condition::Equal, String::from("x")).unwrap_err(),
        Error::InvalidField
    );
}

#[test]
fn value_escaping_in_encoding() {
    let alt = Alternative::new(String::from("method"), Condition::Equal, String::from("a|b&c\\d")).unwrap();
    assert_eq!(alt.encode().iter().collect::<String>(), "method=a\\|b\\&c\\\\d");
}

#[test]
fn time_field_resolves_to_decimal_seconds() {
    let mut c = ctx("", "");
    c.time = 1700000000;
    assert!(c.are_restrictions_met(&single("time", Condition::Equal, "1700000000")).is_ok());
    assert!(c.are_restrictions_met(&single("time", Condition::IntGT, "1699999999")).is_ok());
    assert!(c.are_restrictions_met(&single("time", Condition::IntLT, "1699999999")).is_err());
    c.time = 0;
    assert!(c.are_restrictions_met(&single("time", Condition::Equal, "0")).is_ok());
    c.time = -5;
    let alt = Alternative::new(String::from("time"), Condition::Equal, String::from("0")).unwrap();
    assert_eq!(c.check_alternative(&alt), Err(Error::Clock));
}

#[test]
fn unknown_field_resolves_empty() {
    let c = ctx("GetInfo", "02aa");
    assert!(c.are_restrictions_met(&single("amount", Condition::Missing, "")).is_ok());
    assert!(c.are_restrictions_met(&single("amount", Condition::Equal, "5")).is_err());
    let alt = Alternative::new(String::from("method"), Condition::Equal, String::from("x")).unwrap();
    assert_eq!(c.check_alternative(&alt), Err(Error::Mismatch));
}

#[test]
fn other_conditions() {
    let c = ctx("ListFunds", "02aa");
    assert!(c.are_restrictions_met(&single("method", Condition::EndsWith, "Funds")).is_ok());
    assert!(c.are_restrictions_met(&single("method", Condition::Contains, "tFu")).is_ok());
    assert!(c.are_restrictions_met(&single("method", Condition::NotEqual, "ListFunds")).is_err());
    assert!(c.are_restrictions_met(&single("method", Condition::Comment, "anything")).is_ok());
    assert!(c.are_restrictions_met(&single("method", Condition::LexGT, "GetInfo")).is_ok());
    assert!(c.are_restrictions_met(&single("method", Condition::LexLT, "ListFundsX")).is_ok());
    assert!(c.are_restrictions_met(&single("method", Condition::LexLT, "ListFunds")).is_err());
    assert!(c.are_restrictions_met(&single("method", Condition::LexGT, "Z")).is_err());
}

#[test]
fn unique_id_must_stand_alone() {
    let id = Alternative { field: String::new(), cond: Condition::Equal, value: String::from("7") };
    let other = Alternative::new(String::from("method"), Condition::Equal, String::from("pay")).unwrap();
    assert_eq!(Restriction::new(vec![id.clone(), other]).unwrap_err(), Error::IdNotAlone);
    let r = Restriction::new(vec![id]).unwrap();
    let mut c = ctx("", "");
    c.unique_id = String::from("7");
    assert!(c.meets(&r));
    c.unique_id = String::from("8");
    assert!(!c.meets(&r));
}

#[test]
fn carve_without_policies_returns_origin_encoding() {
    let mr = master();
    assert_eq!(RuneFactory::carve(&mr, &[]).unwrap(), mr.to_base64());
    let carved = RuneFactory::carve(&mr, &[DefRules::Pay]).unwrap();
    let back = Rune::from_base64(&carved).unwrap();
    assert_eq!(RuneFactory::carve(&back, &[]).unwrap(), carved);
}
