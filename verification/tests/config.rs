use rusoto_request::config::{default_client_builder, HttpConfig};

fn builder_text(config: &HttpConfig) -> String {
    format!("{:?}", config.client_builder())
}

#[test]
fn a_config_sets_the_size_of_the_read_buffer() {
    let mut config = HttpConfig::new();
    assert!(builder_text(&config).contains("h1_read_buf_exact_size: None"));
    config.read_buf_size(4096);
    assert!(builder_text(&config).contains("h1_read_buf_exact_size: Some(4096)"));
    config.read_buf_size(8192);
    assert!(builder_text(&config).contains("h1_read_buf_exact_size: Some(8192)"));
}

#[test]
fn the_default_config_is_a_new_one() {
    let default = HttpConfig::default();
    assert_eq!(format!("{:?}", default), format!("{:?}", HttpConfig::new()));
    assert_eq!(builder_text(&default), builder_text(&HttpConfig::new()));
}

#[test]
fn a_default_config_is_no_config() {
    let plain = format!("{:?}", default_client_builder());
    assert_eq!(plain, format!("{:?}", hyper::Client::builder()));
    assert_eq!(builder_text(&HttpConfig::default()), plain);
}

#[test]
fn a_config_changes_no_other_option() {
    let mut config = HttpConfig::new();
    config.read_buf_size(0);
    let plain = format!("{:?}", default_client_builder());
    let expected = plain.replace(
        "h1_read_buf_exact_size: None",
        "h1_read_buf_exact_size: Some(0)",
    );
    assert_ne!(plain, expected);
    assert_eq!(builder_text(&config), expected);
}
