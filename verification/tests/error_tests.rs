use ext_cardano_dbsync::error::{framed, Error};

#[test]
fn failures_are_labelled_by_kind_and_message_in_lowercase() {
    let e = Error::PgError("fail to create user".to_string());
    assert_eq!(e.metric_label(), "pgerror(\"fail to create user\")");
    let e = Error::ConfigError("DB_URLS must be set".to_string());
    assert_eq!(e.metric_label(), "configerror(\"db_urls must be set\")");
    let e = Error::HttpError("a \"quoted\" word\n".to_string());
    assert_eq!(e.metric_label(), "httperror(\"a \\\"quoted\\\" word\\n\")");
}

#[test]
fn every_kind_has_its_label() {
    let m = || "X".to_string();
    assert_eq!(Error::PgError(m()).metric_label(), "pgerror(\"x\")");
    assert_eq!(Error::KubeError(m()).metric_label(), "kubeerror(\"x\")");
    assert_eq!(Error::FinalizerError(m()).metric_label(), "finalizererror(\"x\")");
    assert_eq!(Error::PrometheusError(m()).metric_label(), "prometheuserror(\"x\")");
    assert_eq!(Error::Sha256Error(m()).metric_label(), "sha256error(\"x\")");
    assert_eq!(Error::Bech32Error(m()).metric_label(), "bech32error(\"x\")");
    assert_eq!(Error::ConfigError(m()).metric_label(), "configerror(\"x\")");
    assert_eq!(Error::HttpError(m()).metric_label(), "httperror(\"x\")");
}

#[test]
fn the_label_is_the_lowercase_debug_form() {
    for e in [
        Error::PgError("Relation \"T\" does not exist".to_string()),
        Error::KubeError("ApiError: 404\tNot Found".to_string()),
        Error::ConfigError("ÀÉ mixed Case".to_string()),
    ] {
        assert_eq!(e.metric_label(), format!("{:?}", e).to_lowercase());
    }
}

#[test]
fn failures_read_as_heading_and_message() {
    let m = || "boom".to_string();
    assert_eq!(Error::PgError(m()).to_string(), "Postgres Error: boom");
    assert_eq!(Error::KubeError(m()).to_string(), "Kube Error: boom");
    assert_eq!(Error::FinalizerError(m()).to_string(), "Finalizer Error: boom");
    assert_eq!(Error::PrometheusError(m()).to_string(), "Prometheus Error: boom");
    assert_eq!(Error::Sha256Error(m()).to_string(), "Sha256 Error: boom");
    assert_eq!(Error::Bech32Error(m()).to_string(), "Bech32 Error: boom");
    assert_eq!(Error::ConfigError(m()).to_string(), "Config Error: boom");
    assert_eq!(Error::HttpError(m()).to_string(), "Http Request error: boom");
}

#[test]
fn kind_and_message_are_read_back() {
    let e = Error::Sha256Error("bad".to_string());
    assert_eq!(e.kind(), "Sha256Error");
    assert_eq!(e.message(), "bad");
}

#[test]
fn a_frame_is_kind_and_message_in_parentheses() {
    assert_eq!(framed("PgError", "\"x\""), "PgError(\"x\")");
    assert_eq!(framed("", ""), "()");
}
