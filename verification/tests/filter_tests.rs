use news_search::filter::{from_label, FilterCode};

#[test]
fn labels_map_to_their_filters() {
    assert!(matches!(from_label("Última hora"), FilterCode::LastHour));
    assert!(matches!(from_label("Últimas 24 horas"), FilterCode::Last24Hours));
    assert!(matches!(from_label("Ontem"), FilterCode::Yesterday));
    assert!(matches!(from_label("Última semana"), FilterCode::LastWeek));
    assert!(matches!(from_label("Último mês"), FilterCode::LastMonth));
    assert!(matches!(from_label("Último ano"), FilterCode::LastYear));
    assert!(matches!(from_label("Tudo"), FilterCode::All));
}

#[test]
fn unrecognized_label_falls_back_to_all() {
    assert!(matches!(from_label("something else"), FilterCode::All));
    assert!(matches!(from_label(""), FilterCode::All));
}

#[test]
fn suffix_tokens_are_the_seven_defined_ones() {
    assert_eq!(from_label("Última hora").suffix_token(), "+when:1h");
    assert_eq!(from_label("Últimas 24 horas").suffix_token(), "+when:1d");
    assert_eq!(from_label("Ontem").suffix_token(), "+when:2d");
    assert_eq!(from_label("Última semana").suffix_token(), "+when:7d");
    assert_eq!(from_label("Último mês").suffix_token(), "+when:1m");
    assert_eq!(from_label("Último ano").suffix_token(), "+when:1y");
    assert_eq!(from_label("Tudo").suffix_token(), "");
}

#[test]
fn suffix_token_is_deterministic() {
    let a = from_label("Ontem").suffix_token();
    let b = from_label("Ontem").suffix_token();
    assert_eq!(a, b);
}
