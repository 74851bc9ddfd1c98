use kuon_cli::img::{Config, Image, Size};

#[test]
fn sizes_spell_themselves_as_the_escape_sequence_wants() {
    assert_eq!(Size::Char(5).to_string(), "5");
    assert_eq!(Size::Px(10).to_string(), "10px");
    assert_eq!(Size::Percent(33).to_string(), "33%");
    assert_eq!(Size::Auto.to_string(), "auto");
}

#[test]
fn the_config_builders_replace_one_dimension_each() {
    let c = Config::default();
    assert_eq!(c.width, Size::Auto);
    assert_eq!(c.height, Size::Auto);
    let c = c.width(Size::Px(4)).height(Size::Percent(50));
    assert_eq!(c.width, Size::Px(4));
    assert_eq!(c.height, Size::Percent(50));
}

#[test]
fn the_escape_sequence_carries_the_bytes_in_base64() {
    let img = Image::new(b"Man".to_vec());
    assert_eq!(img.view(), "\u{1b}]1337;File=size=3;width=auto;height=auto;inline=1:TWFu\u{7}");
}

#[test]
fn the_escape_sequence_pads_partial_groups() {
    let img = Image::new(b"M".to_vec());
    let cfg = Config::default().width(Size::Char(12)).height(Size::Px(7));
    assert_eq!(
        img.view_with_config(cfg),
        "\u{1b}]1337;File=size=1;width=12;height=7px;inline=1:TQ==\u{7}"
    );
}

#[test]
fn an_empty_image_encodes_to_empty_base64() {
    let img = Image::new(Vec::new());
    assert_eq!(img.view(), "\u{1b}]1337;File=size=0;width=auto;height=auto;inline=1:\u{7}");
}
