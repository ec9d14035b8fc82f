use rustybmp::rib::filter_expr::{parse_expr, RouteCtx};

fn ctx() -> RouteCtx {
    let community_set = vec!["65000:100".to_string()];
    RouteCtx {
        prefix_len:    24,
        as_path_len:   4,
        origin_asn:    64496,
        has_prepend:   false,
        rpki:          "invalid".to_string(),
        action:        "announce".to_string(),
        peer_as:       65001,
        local_pref:    Some(150),
        med:           Some(50),
        community_set,
    }
}

#[test]
fn test_simple_comparison() {
    let expr = parse_expr("prefix_len > 22").unwrap();
    assert!(expr.eval(&ctx()));
    let expr2 = parse_expr("prefix_len > 24").unwrap();
    assert!(!expr2.eval(&ctx()));
}

#[test]
fn test_rpki_eq() {
    let expr = parse_expr("rpki == 'invalid'").unwrap();
    assert!(expr.eval(&ctx()));
    let expr2 = parse_expr("rpki == 'valid'").unwrap();
    assert!(!expr2.eval(&ctx()));
}

#[test]
fn test_and_compound() {
    let expr = parse_expr("rpki == 'invalid' AND prefix_len > 22").unwrap();
    assert!(expr.eval(&ctx()));
}

#[test]
fn test_not() {
    let expr = parse_expr("NOT rpki == 'valid'").unwrap();
    assert!(expr.eval(&ctx()));
}

#[test]
fn test_or() {
    let expr = parse_expr("rpki == 'valid' OR prefix_len > 22").unwrap();
    assert!(expr.eval(&ctx()));
}

#[test]
fn test_in_set() {
    let expr = parse_expr("peer_as IN [65001, 65002, 65003]").unwrap();
    assert!(expr.eval(&ctx()));
    let expr2 = parse_expr("origin_as IN [64496, 64497]").unwrap();
    assert!(expr2.eval(&ctx()));
}

#[test]
fn test_community_has() {
    let expr = parse_expr("community == '65000:100'").unwrap();
    assert!(expr.eval(&ctx()));
}

#[test]
fn test_has_prepend() {
    let expr = parse_expr("has_prepend").unwrap();
    assert!(!expr.eval(&ctx()));

    let mut ctx2 = ctx();
    ctx2.has_prepend = true;
    assert!(expr.eval(&ctx2));
}

#[test]
fn test_complex_expr() {
    // reject rpki invalid AND too specific
    let expr = parse_expr("rpki == 'invalid' AND prefix_len > 23").unwrap();
    assert!(expr.eval(&ctx()));
}

#[test]
fn test_action_eq() {
    let expr = parse_expr("action == 'announce'").unwrap();
    assert!(expr.eval(&ctx()));
}

#[test]
fn test_local_pref() {
    let expr = parse_expr("local_pref > 100").unwrap();
    assert!(expr.eval(&ctx()));
}

#[test]
fn test_med_lt() {
    let expr = parse_expr("med < 100").unwrap();
    assert!(expr.eval(&ctx()), "med=50 < 100 must be true");
}

#[test]
fn test_med_gt_false() {
    let expr = parse_expr("med > 100").unwrap();
    assert!(!expr.eval(&ctx()), "med=50 > 100 must be false");
}

#[test]
fn test_local_pref_lt_false() {
    let expr = parse_expr("local_pref < 100").unwrap();
    assert!(!expr.eval(&ctx()), "local_pref=150 < 100 must be false");
}

#[test]
fn test_local_pref_eq() {
    let expr = parse_expr("local_pref == 150").unwrap();
    assert!(expr.eval(&ctx()), "local_pref=150 == 150 must be true");
}

#[test]
fn test_as_path_len_gt() {
    let expr = parse_expr("as_path_len > 3").unwrap();
    assert!(expr.eval(&ctx()), "as_path_len=4 > 3 must be true");
}

#[test]
fn test_as_path_len_le() {
    let expr = parse_expr("as_path_len <= 4").unwrap();
    assert!(expr.eval(&ctx()), "as_path_len=4 <= 4 must be true");
}

#[test]
fn test_origin_as_not_in() {
    let expr = parse_expr("origin_as NOT IN [1, 2, 3]").unwrap();
    assert!(expr.eval(&ctx()), "origin_asn=64496 NOT IN [1,2,3] must be true");
}

#[test]
fn test_peer_as_not_in() {
    let expr = parse_expr("peer_as NOT IN [65000, 65002]").unwrap();
    assert!(expr.eval(&ctx()), "peer_as=65001 NOT IN [65000,65002] must be true");
}

#[test]
fn test_community_missing() {
    let expr = parse_expr("community == '65000:200'").unwrap();
    assert!(!expr.eval(&ctx()), "community 65000:200 is absent in ctx");
}

#[test]
fn test_action_withdraw() {
    let expr = parse_expr("action == 'withdraw'").unwrap();
    assert!(!expr.eval(&ctx()), "action=announce != withdraw");

    let mut ctx2 = ctx();
    ctx2.action = "withdraw".to_string();
    assert!(expr.eval(&ctx2));
}

#[test]
fn test_nested_and_or() {
    // (prefix_len > 20 AND rpki == 'invalid') OR peer_as IN [65002]
    let expr = parse_expr("(prefix_len > 20 AND rpki == 'invalid') OR peer_as IN [65002]").unwrap();
    assert!(expr.eval(&ctx()), "prefix_len=24>20 AND rpki=invalid → true, so whole OR is true");
}

#[test]
fn test_parse_error_bad_syntax() {
    let result = parse_expr("AND AND AND");
    assert!(result.is_err(), "invalid syntax must return Err");
}

#[test]
fn test_prefix_len_ge_boundary() {
    let expr = parse_expr("prefix_len >= 24").unwrap();
    assert!(expr.eval(&ctx()), "prefix_len=24 >= 24 boundary must be true");

    let expr2 = parse_expr("prefix_len >= 25").unwrap();
    assert!(!expr2.eval(&ctx()), "prefix_len=24 >= 25 must be false");
}


#[test]
fn parse_expr_rejects_trailing_input() {
    assert!(parse_expr("prefix_len > 1 )").is_err());
    assert!(parse_expr("").is_err());
}

#[test]
fn absent_med_and_local_pref_take_defaults() {
    let mut c = ctx();
    c.med = None;
    c.local_pref = None;
    assert!(parse_expr("med < 100").unwrap().eval(&c));
    assert!(!parse_expr("med > 0").unwrap().eval(&c));
    assert!(parse_expr("local_pref == 100").unwrap().eval(&c));
}

#[test]
fn and_binds_tighter_than_or() {
    // false AND true OR true == (false AND true) OR true == true
    let expr = parse_expr("rpki == 'valid' AND prefix_len > 1 OR has_prepend").unwrap();
    assert!(!expr.eval(&ctx()));
    let expr2 = parse_expr("rpki == 'valid' AND prefix_len > 1 OR prefix_len > 1").unwrap();
    assert!(expr2.eval(&ctx()));
}

#[test]
fn not_equal_comparison() {
    assert!(parse_expr("rpki != 'valid'").unwrap().eval(&ctx()));
    assert!(!parse_expr("rpki != 'invalid'").unwrap().eval(&ctx()));
}
