use pathfinder::config::{low_byte, number_for, ConfigError, ConfigKey, DrivableConfig};
use pathfinder::fixed::{double_in_unit_range, double_to_micro};

const DOCUMENT: &str = "
left_lower = [23, 40, 40]
left_upper = [37, 255, 255]
right_lower = [95, 40, 40]
right_upper = [145, 255, 255]
box_lower = [0, 1, 2]
box_upper = [3, 4, 5]
car_lower = [6, 7, 8]
car_upper = [9, 10, 11]
finish_lower = [12, 13, 14]
finish_upper = [15, 16, 17]
p_gain = 0.35
i_gain = 0.02
i_max = 200.0
speed = 0.7
";

fn with(line: &str) -> String {
    let name = line.split('=').next().unwrap().trim();
    let mut text = String::new();
    for old in DOCUMENT.lines() {
        if old.split('=').next().unwrap().trim() == name {
            text.push_str(line);
        } else {
            text.push_str(old);
        }
        text.push('\n');
    }
    text
}

fn without(name: &str) -> String {
    let mut text = String::new();
    for old in DOCUMENT.lines() {
        if old.split('=').next().unwrap().trim() != name {
            text.push_str(old);
            text.push('\n');
        }
    }
    text
}

fn error_of(text: &str) -> ConfigError {
    match DrivableConfig::from_toml(text) {
        Ok(_) => panic!("the document was accepted"),
        Err(error) => error,
    }
}

#[test]
fn document_is_read_entry_by_entry() {
    let config = DrivableConfig::from_toml(DOCUMENT).unwrap();
    assert_eq!(config.left_lower, vec![23, 40, 40]);
    assert_eq!(config.left_upper, vec![37, 255, 255]);
    assert_eq!(config.right_lower, vec![95, 40, 40]);
    assert_eq!(config.right_upper, vec![145, 255, 255]);
    assert_eq!(config.box_lower, vec![0, 1, 2]);
    assert_eq!(config.box_upper, vec![3, 4, 5]);
    assert_eq!(config.car_lower, vec![6, 7, 8]);
    assert_eq!(config.car_upper, vec![9, 10, 11]);
    assert_eq!(config.finish_lower, vec![12, 13, 14]);
    assert_eq!(config.finish_upper, vec![15, 16, 17]);
    assert_eq!(config.p_gain, 350_000);
    assert_eq!(config.i_gain, 20_000);
    assert_eq!(config.i_max, 200_000_000);
    assert_eq!(config.speed, 700_000);
    assert!(config.check());
}

#[test]
fn document_may_hold_more_than_is_read() {
    let text = format!("{}\nname = \"car\"\n[extra]\nflag = true\n", DOCUMENT);
    let config = DrivableConfig::from_toml(&text).unwrap();
    assert_eq!(config.speed, 700_000);
}

#[test]
fn threshold_members_are_cut_to_their_lowest_byte() {
    let config =
        DrivableConfig::from_toml(&with("left_lower = [256, -1, 511, 1000, -256, 255, 0]"))
            .unwrap();
    assert_eq!(config.left_lower, vec![0, 255, 255, 232, 0, 255, 0]);
}

#[test]
fn threshold_may_be_empty_or_long() {
    let config = DrivableConfig::from_toml(&with("car_upper = []")).unwrap();
    assert!(config.car_upper.is_empty());
    let config = DrivableConfig::from_toml(&with("car_upper = [1, 2, 3, 4, 5]")).unwrap();
    assert_eq!(config.car_upper, vec![1, 2, 3, 4, 5]);
}

#[test]
fn text_that_is_no_document_is_a_syntax_error() {
    assert_eq!(error_of("left_lower = [1, 2"), ConfigError::Syntax);
    assert_eq!(error_of("= 3"), ConfigError::Syntax);
    assert_eq!(error_of(&format!("{}p_gain = 0.5\n", DOCUMENT)), ConfigError::Syntax);
}

#[test]
fn missing_entry_is_reported() {
    assert_eq!(error_of(""), ConfigError::Missing(ConfigKey::LeftLower));
    let keys = [
        ("left_lower", ConfigKey::LeftLower),
        ("left_upper", ConfigKey::LeftUpper),
        ("right_lower", ConfigKey::RightLower),
        ("right_upper", ConfigKey::RightUpper),
        ("box_lower", ConfigKey::BoxLower),
        ("box_upper", ConfigKey::BoxUpper),
        ("car_lower", ConfigKey::CarLower),
        ("car_upper", ConfigKey::CarUpper),
        ("finish_lower", ConfigKey::FinishLower),
        ("finish_upper", ConfigKey::FinishUpper),
        ("p_gain", ConfigKey::PGain),
        ("i_gain", ConfigKey::IGain),
        ("i_max", ConfigKey::IMax),
        ("speed", ConfigKey::Speed),
    ];
    for (name, key) in keys {
        assert_eq!(key.name(), name);
        assert_eq!(error_of(&without(name)), ConfigError::Missing(key));
    }
}

#[test]
fn threshold_that_is_no_array_is_reported() {
    assert_eq!(error_of(&with("right_upper = 7")), ConfigError::NotArray(ConfigKey::RightUpper));
    assert_eq!(
        error_of(&with("finish_lower = \"12, 13\"")),
        ConfigError::NotArray(ConfigKey::FinishLower)
    );
    assert_eq!(error_of(&with("box_lower = 1.5")), ConfigError::NotArray(ConfigKey::BoxLower));
}

#[test]
fn threshold_member_that_is_no_integer_is_reported() {
    assert_eq!(
        error_of(&with("box_upper = [3, 4.0, 5]")),
        ConfigError::NotInteger(ConfigKey::BoxUpper)
    );
    assert_eq!(
        error_of(&with("car_lower = [\"6\"]")),
        ConfigError::NotInteger(ConfigKey::CarLower)
    );
    assert_eq!(
        error_of(&with("car_lower = [[6], [7]]")),
        ConfigError::NotInteger(ConfigKey::CarLower)
    );
}

#[test]
fn number_that_is_no_float_is_reported() {
    assert_eq!(error_of(&with("p_gain = 1")), ConfigError::NotFloat(ConfigKey::PGain));
    assert_eq!(error_of(&with("i_gain = \"0.1\"")), ConfigError::NotFloat(ConfigKey::IGain));
    assert_eq!(error_of(&with("i_max = 200")), ConfigError::NotFloat(ConfigKey::IMax));
    assert_eq!(error_of(&with("speed = [0.5]")), ConfigError::NotFloat(ConfigKey::Speed));
}

#[test]
fn number_out_of_range_is_reported() {
    assert_eq!(error_of(&with("p_gain = 1.5")), ConfigError::OutOfRange(ConfigKey::PGain));
    assert_eq!(error_of(&with("p_gain = -0.1")), ConfigError::OutOfRange(ConfigKey::PGain));
    assert_eq!(error_of(&with("i_gain = 1.0000001")), ConfigError::OutOfRange(ConfigKey::IGain));
    assert_eq!(error_of(&with("i_gain = nan")), ConfigError::OutOfRange(ConfigKey::IGain));
    assert_eq!(error_of(&with("speed = inf")), ConfigError::OutOfRange(ConfigKey::Speed));
    assert_eq!(error_of(&with("speed = -1e-9")), ConfigError::OutOfRange(ConfigKey::Speed));
    assert_eq!(error_of(&with("i_max = -1.0")), ConfigError::OutOfRange(ConfigKey::IMax));
    assert_eq!(error_of(&with("i_max = 1e13")), ConfigError::OutOfRange(ConfigKey::IMax));
    assert_eq!(error_of(&with("i_max = inf")), ConfigError::OutOfRange(ConfigKey::IMax));
    assert_eq!(error_of(&with("i_max = nan")), ConfigError::OutOfRange(ConfigKey::IMax));
}

#[test]
fn ends_of_the_ranges_are_accepted() {
    let config = DrivableConfig::from_toml(&with("p_gain = 1.0")).unwrap();
    assert_eq!(config.p_gain, 1_000_000);
    let config = DrivableConfig::from_toml(&with("p_gain = 0.0")).unwrap();
    assert_eq!(config.p_gain, 0);
    let config = DrivableConfig::from_toml(&with("speed = -0.0")).unwrap();
    assert_eq!(config.speed, 0);
    let config = DrivableConfig::from_toml(&with("i_max = 0.0")).unwrap();
    assert_eq!(config.i_max, 0);
    let config = DrivableConfig::from_toml(&with("i_max = 9.2e12")).unwrap();
    assert_eq!(config.i_max, 9_200_000_000_000_000_000);
    let config = DrivableConfig::from_toml(&with("i_max = -1e-7")).unwrap();
    assert_eq!(config.i_max, 0);
}

#[test]
fn first_wrong_entry_gives_the_error() {
    let text = with("speed = 2.0").replace("left_upper = [37, 255, 255]", "left_upper = 1");
    assert_eq!(error_of(&text), ConfigError::NotArray(ConfigKey::LeftUpper));
    let text = with("speed = 2.0").replace("i_gain = 0.02", "i_gain = 2");
    assert_eq!(error_of(&text), ConfigError::NotFloat(ConfigKey::IGain));
    let text = with("car_lower = [1.0]").replace("box_lower = [0, 1, 2]", "");
    assert_eq!(error_of(&text), ConfigError::Missing(ConfigKey::BoxLower));
}

#[test]
fn low_byte_wraps() {
    assert_eq!(low_byte(0), 0);
    assert_eq!(low_byte(255), 255);
    assert_eq!(low_byte(256), 0);
    assert_eq!(low_byte(-1), 255);
    assert_eq!(low_byte(-256), 0);
    assert_eq!(low_byte(1000), 232);
    assert_eq!(low_byte(i64::MAX), 255);
    assert_eq!(low_byte(i64::MIN), 0);
    for integer in -1000i64..1000 {
        assert_eq!(low_byte(integer), integer as u8);
    }
}

#[test]
fn doubles_are_rounded_to_the_nearest_millionth() {
    let cases: [(f64, i64); 20] = [
        (0.35, 350_000),
        (0.02, 20_000),
        (200.0, 200_000_000),
        (0.7, 700_000),
        (0.1, 100_000),
        (0.3, 300_000),
        (0.5, 500_000),
        (1.0, 1_000_000),
        (0.0, 0),
        (-0.0, 0),
        (5e-7, 0),
        (1.5e-6, 2),
        (2.5e-6, 3),
        (0.9999995, 1_000_000),
        (0.99999949, 999_999),
        (123456.789, 123_456_789_000),
        (-0.25, -250_000),
        (-1.5e-6, -2),
        (9.2e12, 9_200_000_000_000_000_000),
        (9223372036854.775, 9_223_372_036_854_775_391),
    ];
    for (double, micro) in cases {
        assert_eq!(double_to_micro(double.to_bits()), Some(micro), "{}", double);
    }
}

#[test]
fn doubles_that_do_not_fit_give_nothing() {
    for double in [
        9223372036854.777,
        1e13,
        -1e13,
        4503599627370496.0,
        f64::MAX,
        f64::MIN,
        f64::INFINITY,
        f64::NEG_INFINITY,
        f64::NAN,
    ] {
        assert_eq!(double_to_micro(double.to_bits()), None, "{}", double);
    }
}

#[test]
fn smallest_doubles_are_zero_millionths() {
    assert_eq!(double_to_micro(1), Some(0));
    assert_eq!(double_to_micro(f64::MIN_POSITIVE.to_bits()), Some(0));
    assert_eq!(double_to_micro((-f64::MIN_POSITIVE).to_bits()), Some(0));
    assert_eq!(double_to_micro(1e-7f64.to_bits()), Some(0));
    assert_eq!(double_to_micro(4.9e-7f64.to_bits()), Some(0));
}

#[test]
fn unit_range_is_closed() {
    for double in [0.0, -0.0, 1.0, 0.5, f64::MIN_POSITIVE, 0.9999999999999999, 5e-324] {
        assert!(double_in_unit_range(double.to_bits()), "{}", double);
    }
    for double in [
        1.0000000000000002,
        2.0,
        -5e-324,
        -0.5,
        f64::INFINITY,
        f64::NEG_INFINITY,
        f64::NAN,
        f64::MAX,
    ] {
        assert!(!double_in_unit_range(double.to_bits()), "{}", double);
    }
}

#[test]
fn unit_range_agrees_with_double_comparison() {
    let mut bits: u64 = 0x9E37_79B9_7F4A_7C15;
    for _ in 0..20_000 {
        bits ^= bits << 13;
        bits ^= bits >> 7;
        bits ^= bits << 17;
        let double = f64::from_bits(bits);
        assert_eq!(double_in_unit_range(bits), (0.0..=1.0).contains(&double));
    }
}

#[test]
fn conversion_agrees_with_double_arithmetic_on_multiples_of_a_millionth() {
    for micro in (-2_000_000i64..2_000_000).step_by(7) {
        let double = micro as f64 / 1e6;
        assert_eq!(double_to_micro(double.to_bits()), Some(micro));
    }
}

#[test]
fn number_for_gives_each_key_its_range() {
    assert_eq!(number_for(0.5f64.to_bits(), ConfigKey::PGain), Ok(500_000));
    assert_eq!(number_for(0.5f64.to_bits(), ConfigKey::IMax), Ok(500_000));
    assert_eq!(
        number_for(1.5f64.to_bits(), ConfigKey::IGain),
        Err(ConfigError::OutOfRange(ConfigKey::IGain))
    );
    assert_eq!(number_for(1.5f64.to_bits(), ConfigKey::IMax), Ok(1_500_000));
    assert_eq!(
        number_for((-1.5f64).to_bits(), ConfigKey::IMax),
        Err(ConfigError::OutOfRange(ConfigKey::IMax))
    );
    assert_eq!(
        number_for(2.0f64.to_bits(), ConfigKey::Speed),
        Err(ConfigError::OutOfRange(ConfigKey::Speed))
    );
}

fn integers(members: &[i64]) -> toml::Value {
    toml::Value::Array(members.iter().map(|member| toml::Value::Integer(*member)).collect())
}

fn table() -> toml::Table {
    let mut table = toml::Table::new();
    table.insert("left_lower".to_string(), integers(&[23, 40, 40]));
    table.insert("left_upper".to_string(), integers(&[37, 255, 255]));
    table.insert("right_lower".to_string(), integers(&[95, 40, 40]));
    table.insert("right_upper".to_string(), integers(&[145, 255, 255]));
    table.insert("box_lower".to_string(), integers(&[0, 1, 2]));
    table.insert("box_upper".to_string(), integers(&[3, 4, 5]));
    table.insert("car_lower".to_string(), integers(&[6, 7, 8]));
    table.insert("car_upper".to_string(), integers(&[9, 10, 11]));
    table.insert("finish_lower".to_string(), integers(&[12, 13, 14]));
    table.insert("finish_upper".to_string(), integers(&[15, 16, 17]));
    table.insert("p_gain".to_string(), toml::Value::Float(0.35));
    table.insert("i_gain".to_string(), toml::Value::Float(0.02));
    table.insert("i_max".to_string(), toml::Value::Float(200.0));
    table.insert("speed".to_string(), toml::Value::Float(0.7));
    table
}

fn table_error(table: &toml::Table) -> ConfigError {
    match DrivableConfig::from_table(table) {
        Ok(_) => panic!("the table was accepted"),
        Err(error) => error,
    }
}

#[test]
fn table_is_read_entry_by_entry() {
    let config = DrivableConfig::from_table(&table()).unwrap();
    assert_eq!(config.left_lower, vec![23, 40, 40]);
    assert_eq!(config.left_upper, vec![37, 255, 255]);
    assert_eq!(config.right_lower, vec![95, 40, 40]);
    assert_eq!(config.right_upper, vec![145, 255, 255]);
    assert_eq!(config.box_lower, vec![0, 1, 2]);
    assert_eq!(config.box_upper, vec![3, 4, 5]);
    assert_eq!(config.car_lower, vec![6, 7, 8]);
    assert_eq!(config.car_upper, vec![9, 10, 11]);
    assert_eq!(config.finish_lower, vec![12, 13, 14]);
    assert_eq!(config.finish_upper, vec![15, 16, 17]);
    assert_eq!(config.p_gain, 350_000);
    assert_eq!(config.i_gain, 20_000);
    assert_eq!(config.i_max, 200_000_000);
    assert_eq!(config.speed, 700_000);
    assert!(config.check());
}

#[test]
fn table_read_agrees_with_document_read() {
    let from_text = DrivableConfig::from_toml(DOCUMENT).unwrap();
    let from_table = DrivableConfig::from_table(&table()).unwrap();
    assert_eq!(from_text.left_lower, from_table.left_lower);
    assert_eq!(from_text.finish_lower, from_table.finish_lower);
    assert_eq!(from_text.finish_upper, from_table.finish_upper);
    assert_eq!(from_text.p_gain, from_table.p_gain);
    assert_eq!(from_text.i_gain, from_table.i_gain);
    assert_eq!(from_text.i_max, from_table.i_max);
    assert_eq!(from_text.speed, from_table.speed);
}

#[test]
fn empty_table_misses_its_first_entry() {
    assert_eq!(table_error(&toml::Table::new()), ConfigError::Missing(ConfigKey::LeftLower));
}

#[test]
fn table_entry_that_is_missing_is_reported() {
    let mut t = table();
    t.remove("car_upper");
    assert_eq!(table_error(&t), ConfigError::Missing(ConfigKey::CarUpper));
    let mut t = table();
    t.remove("i_max");
    assert_eq!(table_error(&t), ConfigError::Missing(ConfigKey::IMax));
}

#[test]
fn table_entry_of_the_wrong_kind_is_reported() {
    let mut t = table();
    t.insert("right_lower".to_string(), toml::Value::Integer(95));
    assert_eq!(table_error(&t), ConfigError::NotArray(ConfigKey::RightLower));
    let mut t = table();
    t.insert(
        "box_upper".to_string(),
        toml::Value::Array(vec![toml::Value::Integer(3), toml::Value::Boolean(true)]),
    );
    assert_eq!(table_error(&t), ConfigError::NotInteger(ConfigKey::BoxUpper));
    let mut t = table();
    t.insert("speed".to_string(), toml::Value::Integer(1));
    assert_eq!(table_error(&t), ConfigError::NotFloat(ConfigKey::Speed));
    let mut t = table();
    t.insert("p_gain".to_string(), toml::Value::String("0.5".to_string()));
    assert_eq!(table_error(&t), ConfigError::NotFloat(ConfigKey::PGain));
}

#[test]
fn table_number_out_of_range_is_reported() {
    let mut t = table();
    t.insert("i_gain".to_string(), toml::Value::Float(1.0000000000000002));
    assert_eq!(table_error(&t), ConfigError::OutOfRange(ConfigKey::IGain));
    let mut t = table();
    t.insert("i_max".to_string(), toml::Value::Float(-0.000001));
    assert_eq!(table_error(&t), ConfigError::OutOfRange(ConfigKey::IMax));
    let mut t = table();
    t.insert("speed".to_string(), toml::Value::Float(f64::NAN));
    assert_eq!(table_error(&t), ConfigError::OutOfRange(ConfigKey::Speed));
}

#[test]
fn table_thresholds_are_not_exchanged() {
    let mut t = table();
    t.insert("finish_lower".to_string(), integers(&[1]));
    t.insert("finish_upper".to_string(), integers(&[2, 3]));
    let config = DrivableConfig::from_table(&t).unwrap();
    assert_eq!(config.finish_lower, vec![1]);
    assert_eq!(config.finish_upper, vec![2, 3]);
}

#[test]
fn table_first_wrong_entry_gives_the_error() {
    let mut t = table();
    t.insert("speed".to_string(), toml::Value::Float(2.0));
    t.insert("p_gain".to_string(), toml::Value::Float(-1.0));
    t.insert("finish_upper".to_string(), toml::Value::Float(1.0));
    assert_eq!(table_error(&t), ConfigError::NotArray(ConfigKey::FinishUpper));
    t.insert("finish_upper".to_string(), integers(&[1]));
    assert_eq!(table_error(&t), ConfigError::OutOfRange(ConfigKey::PGain));
    t.insert("p_gain".to_string(), toml::Value::Float(1.0));
    assert_eq!(table_error(&t), ConfigError::OutOfRange(ConfigKey::Speed));
}
